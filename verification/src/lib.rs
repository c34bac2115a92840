//! Verified device drivers for an embedded kernel.
//!
//! - [`adc`]: the analog to digital converter of the SAM4L, with its clock
//!   ([`adc_clock`], [`math`]), its registers ([`adc_registers`]) and what holds
//!   of it across operations ([`adc_laws`]) and of each of them
//!   ([`adc_operations`]).
//! - [`driver`]: the system calls of the FAT filesystem driver, with what holds
//!   of them across calls ([`driver_laws`]) and of each ([`driver_operations`]).
//! - [`fatfs`]: the controller of the FAT file system, with the tables of what
//!   is open ([`handles`]) and the reading and writing of files ([`transfer`]);
//!   what holds of each operation is in [`fatfs_operations`] and
//!   [`transfer_operations`].
//! - [`data_structures`], [`files`], [`filename`], [`fs`], [`block_device`]:
//!   blocks, volumes, files and their names, with what holds of the operations on
//!   them ([`block_operations`], [`filename_operations`]).
//! - [`sdmmc_proto`]: constants, registers and checksums of SD cards, with what
//!   holds of them ([`sdmmc_operations`]).
//!
//! A driver decides what is to be done, and whoever runs it does it: an
//! operation that needs the hardware hands out what it needs, and goes on in a
//! method that takes the outcome.
#![allow(unused_imports)]

pub mod adc;
pub mod adc_clock;
pub mod adc_laws;
pub mod adc_operations;
pub mod adc_registers;
pub mod block_device;
pub mod block_operations;
pub mod data_structures;
pub mod driver;
pub mod driver_laws;
pub mod driver_operations;
pub mod error_code;
pub mod fatfs;
pub mod fatfs_operations;
pub mod filename;
pub mod filename_operations;
pub mod files;
pub mod fs;
pub mod handles;
pub mod little_endian;
pub mod math;
pub mod sdmmc_operations;
pub mod sdmmc_proto;
pub mod text;
pub mod transfer;
pub mod transfer_operations;
