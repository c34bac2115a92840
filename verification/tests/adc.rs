use tock_drivers::adc::{
    Action, Adc, AdcChannel, Channel, ConfigPhase, ConfigStep, DMAChannel, DMAPeripheral,
    DisableStep, Interrupted, Stage, TransferDone,
};
use tock_drivers::adc_clock::{select_clock, ClockSelection, ClockSource};
use tock_drivers::adc_registers::Register;
use tock_drivers::error_code::ErrorCode;

const PERIPHERAL: DMAPeripheral = DMAPeripheral(8);
const EN: u32 = 1 << 24;
const BUFFERS: u32 = (1 << 30) | (1 << 28);
const SEOC: u32 = 1;

fn write(register: Register, value: u32) -> Action {
    Action::Write(register, value)
}

fn configure(
    adc: &mut Adc,
    begun: (Vec<Action>, Result<ConfigStep, ErrorCode>),
    statuses: &[u32],
    cpu_frequency: u32,
) -> (Vec<Action>, Result<(), ErrorCode>) {
    let (mut actions, mut step) = begun;
    let mut polls = statuses.iter();
    loop {
        match step {
            Err(e) => return (actions, Err(e)),
            Ok(ConfigStep::Done) => return (actions, Ok(())),
            Ok(ConfigStep::Poll(phase)) => {
                let (more, next) =
                    adc.config_polled(phase, *polls.next().unwrap(), cpu_frequency);
                actions.extend(more);
                step = next;
            }
        }
    }
}

fn configured(adc: &mut Adc, frequency: u32, cpu_frequency: u32) {
    let begun = adc.config_and_enable(frequency);
    let (_, result) = configure(adc, begun, &[0, EN, EN | BUFFERS], cpu_frequency);
    assert_eq!(result, Ok(()));
}

fn channel() -> AdcChannel {
    AdcChannel::new(Channel::AD5)
}

#[test]
fn channels_have_a_number_and_a_kind() {
    let ad14 = AdcChannel::new(Channel::AD14);
    assert_eq!((ad14.chan_num, ad14.internal), (14, 0));
    let bandgap = AdcChannel::new(Channel::Bandgap);
    assert_eq!((bandgap.chan_num, bandgap.internal), (15, 0));
    let vcc = AdcChannel::new(Channel::ScaledVCC);
    assert_eq!((vcc.chan_num, vcc.internal), (2, 1));
    let ground = AdcChannel::new(Channel::ReferenceGround);
    assert_eq!((ground.chan_num, ground.internal), (7, 1));
    assert_ne!(AdcChannel::new(Channel::AD2), vcc);
    assert_eq!(Channel::Vsingle.number(), 0x16);
}

#[test]
fn clocks_for_frequencies() {
    let rc32k = |prescaler, frequency| ClockSelection {
        source: ClockSource::RC32K,
        prescaler,
        frequency,
    };
    assert_eq!(select_clock(1000, 48000000), rc32k(0, 1000));
    assert_eq!(select_clock(501, 48000000), rc32k(0, 1000));
    assert_eq!(select_clock(500, 48000000), rc32k(1, 500));
    assert_eq!(select_clock(300, 48000000), rc32k(1, 500));
    assert_eq!(select_clock(250, 48000000), rc32k(2, 250));
    assert_eq!(select_clock(8, 48000000), rc32k(6, 15));
    assert_eq!(select_clock(7, 48000000), rc32k(7, 7));
    assert_eq!(select_clock(1, 48000000), rc32k(7, 7));
    let rcsys = |prescaler, frequency| ClockSelection {
        source: ClockSource::RCSYS,
        prescaler,
        frequency,
    };
    assert_eq!(select_clock(3550, 48000000), rcsys(0, 3550));
    assert_eq!(select_clock(1775, 48000000), rcsys(1, 1775));
    assert_eq!(select_clock(1001, 48000000), rcsys(1, 1775));
    let cpu = |prescaler, frequency| ClockSelection {
        source: ClockSource::CpuClock,
        prescaler,
        frequency,
    };
    assert_eq!(select_clock(3551, 48000000), cpu(3, 1500000));
    assert_eq!(select_clock(3551, 48000001), cpu(4, 750000));
    assert_eq!(select_clock(3551, 1000000), cpu(0, 250000));
    assert_eq!(select_clock(250000, 4000000000), cpu(7, 7812500));
}

#[test]
fn configuration_for_single_samples() {
    let mut adc = Adc::new(PERIPHERAL);
    let begun = adc.sample();
    let (actions, result) = configure(&mut adc, begun, &[EN, EN, 0, 0, EN, EN, EN | BUFFERS], 0);
    assert_eq!(result, Ok(()));
    assert_eq!(
        actions,
        vec![
            write(Register::Cr, 0x200),
            Action::EnableBusClock,
            Action::EnableGenericClock(ClockSource::RC32K),
            write(Register::Cfg, 0x008),
            write(Register::Tim, 0x117),
            write(Register::Cr, 0x001),
            write(Register::Cr, 0x100),
            write(Register::Cr, 0x410),
        ]
    );
    assert!(adc.enabled);
    assert!(!adc.cpu_clock);
    assert_eq!(adc.adc_clk_freq, 1000);
    // the same frequency again has no effect
    let (actions, step) = adc.sample();
    assert!(actions.is_empty());
    assert_eq!(step, Ok(ConfigStep::Done));
}

#[test]
fn configuration_for_the_cpu_clock() {
    let mut adc = Adc::new(PERIPHERAL);
    let begun = adc.sample_highspeed(44100);
    let (actions, result) = configure(&mut adc, begun, &[0, EN, EN | BUFFERS], 48000000);
    assert_eq!(result, Ok(()));
    assert!(actions.contains(&Action::EnableGenericClock(ClockSource::CpuClock)));
    assert!(actions.contains(&write(Register::Cfg, 0x348)));
    assert!(adc.cpu_clock);
    assert_eq!(adc.adc_clk_freq, 1500000);
}

#[test]
fn configuration_is_given_up_in_the_end() {
    let mut adc = Adc::new(PERIPHERAL);
    let begun = adc.sample();
    let (actions, result) = configure(&mut adc, begun, &[EN; 10000], 0);
    assert_eq!(result, Err(ErrorCode::FAIL));
    assert_eq!(actions.len(), 1);
    assert!(!adc.enabled);

    let mut statuses = vec![EN; 9999];
    statuses.extend([0; 10001]);
    let begun = adc.sample();
    let (_, result) = configure(&mut adc, begun, &statuses, 0);
    assert_eq!(result, Err(ErrorCode::FAIL));
    assert!(adc.enabled);

    let mut adc = Adc::new(PERIPHERAL);
    let mut statuses = vec![0, EN];
    statuses.extend([EN; 100000]);
    let begun = adc.sample();
    let (_, result) = configure(&mut adc, begun, &statuses, 0);
    assert_eq!(result, Err(ErrorCode::FAIL));
    // what did not end well is made anew
    assert!(adc.enabled);
    let (actions, step) = adc.sample();
    assert_eq!(actions, vec![write(Register::Cr, 0x200)]);
    assert!(matches!(step, Ok(ConfigStep::Poll(_))));
}

#[test]
fn repeated_configuration_has_no_effect() {
    let mut adc = Adc::new(PERIPHERAL);
    for frequency in [300, 999, 2000, 44100] {
        configured(&mut adc, frequency, 48000000);
        let clock = adc.adc_clk_freq;
        assert_eq!(
            adc.config_and_enable(frequency),
            (vec![], Ok(ConfigStep::Done))
        );
        assert_eq!(adc.configured, Some(frequency));
        assert_eq!(adc.adc_clk_freq, clock);
        assert!(adc.enabled);
    }
    // the clock that results is not the frequency that was asked for
    configured(&mut adc, 300, 48000000);
    assert_eq!(adc.adc_clk_freq, 500);
    assert!(matches!(
        adc.config_and_enable(500).1,
        Ok(ConfigStep::Poll(_))
    ));
}

#[test]
fn last_look_counts() {
    let mut adc = Adc::new(PERIPHERAL);
    let phase = ConfigPhase {
        frequency: 1000,
        stage: Stage::Buffering,
        timeout: 1,
    };
    assert_eq!(
        adc.config_polled(phase, EN | BUFFERS, 0).1,
        Ok(ConfigStep::Done)
    );
    assert_eq!(
        adc.config_polled(phase, EN | (1 << 30), 0).1,
        Err(ErrorCode::FAIL)
    );
}

#[test]
fn single_sample_is_delivered_once() {
    let mut adc = Adc::new(PERIPHERAL);
    configured(&mut adc, 1000, 0);
    assert_eq!(
        adc.sample_configured(&channel(), Ok(())),
        Ok(vec![
            write(Register::Seqcfg, 0x0075_8071),
            write(Register::Scr, 0x2F),
            write(Register::Ier, 0x01),
            write(Register::Cr, 0x08),
        ])
    );
    assert_eq!(adc.sample().1, Err(ErrorCode::BUSY));
    assert_eq!(
        adc.sample_configured(&channel(), Ok(())),
        Err(ErrorCode::BUSY)
    );
    assert_eq!(adc.handle_interrupt(0), Interrupted::Handled(vec![]));
    assert_eq!(adc.handle_interrupt(SEOC), Interrupted::Sample);
    assert_eq!(Adc::sample_value(0x0075_ABCD), 0xABCD);
    assert_eq!(
        adc.sample_delivered(),
        vec![write(Register::Idr, 0x01), write(Register::Scr, 0x01)]
    );
    assert!(!adc.active);
    assert_eq!(
        adc.handle_interrupt(SEOC),
        Interrupted::Handled(vec![write(Register::Idr, 0x2F), write(Register::Scr, 0x2F)])
    );
}

#[test]
fn internal_channels_are_selected() {
    let mut adc = Adc::new(PERIPHERAL);
    configured(&mut adc, 1000, 0);
    let actions = adc
        .sample_configured(&AdcChannel::new(Channel::DAC), Ok(()))
        .unwrap();
    assert_eq!(actions[0], write(Register::Seqcfg, 0x0073_C071));
}

#[test]
fn sampling_needs_a_configured_converter() {
    let mut adc = Adc::new(PERIPHERAL);
    assert_eq!(
        adc.sample_configured(&channel(), Err(ErrorCode::FAIL)),
        Err(ErrorCode::FAIL)
    );
    assert_eq!(
        adc.sample_configured(&channel(), Ok(())),
        Err(ErrorCode::OFF)
    );
    assert_eq!(
        adc.sample_continuous_configured(&channel(), 100, Ok(())),
        Err(ErrorCode::OFF)
    );
    // there is no clock for the frequency 0
    assert_eq!(adc.sample_continuous(0), (vec![], Err(ErrorCode::OFF)));
    assert_eq!(adc.sample_highspeed(0), (vec![], Err(ErrorCode::OFF)));
    assert_eq!(
        adc.sample_continuous_configured(&channel(), 0, Err(ErrorCode::OFF)),
        Err(ErrorCode::OFF)
    );
    assert_eq!(adc.stop_sampling(), Err(ErrorCode::OFF));
    assert_eq!(
        adc.provide_buffer(vec![1], 1),
        Err((ErrorCode::OFF, vec![1]))
    );
}

#[test]
fn continuous_sampling_off_an_rc_oscillator() {
    let mut adc = Adc::new(PERIPHERAL);
    configured(&mut adc, 500, 0);
    assert_eq!(
        adc.sample_continuous_configured(&channel(), 500, Ok(())),
        Ok(vec![
            write(Register::Seqcfg, 0x0075_8371),
            write(Register::Cr, 0x02),
            write(Register::Scr, 0x2F),
            write(Register::Ier, 0x01),
            write(Register::Cr, 0x04),
        ])
    );
    assert_eq!((adc.timer_repeats, adc.timer_counts), (0, 0));
    for _ in 0..3 {
        assert_eq!(adc.handle_interrupt(SEOC), Interrupted::Sample);
        assert_eq!(adc.sample_delivered(), vec![write(Register::Scr, 0x01)]);
        assert!(adc.active);
    }
}

#[test]
fn continuous_sampling_off_the_cpu_clock() {
    let mut adc = Adc::new(PERIPHERAL);
    configured(&mut adc, 10000, 48000000);
    assert_eq!(
        adc.sample_continuous_configured(&channel(), 10000, Ok(())),
        Ok(vec![
            write(Register::Seqcfg, 0x0075_8171),
            write(Register::Cr, 0x02),
            write(Register::Itimer, 149),
            write(Register::Scr, 0x2F),
            write(Register::Ier, 0x01),
            write(Register::Cr, 0x04),
        ])
    );
}

#[test]
fn slow_continuous_sampling_passes_over_timer_fires() {
    let mut adc = Adc::new(PERIPHERAL);
    configured(&mut adc, 10000, 48000000);
    let actions = adc
        .sample_continuous_configured(&channel(), 20, Ok(()))
        .unwrap();
    // 20 Hz three times over
    assert_eq!(actions[2], write(Register::Itimer, 24999));
    assert_eq!(adc.timer_repeats, 2);
    // every third fire is a sample
    for _ in 0..2 {
        for _ in 0..2 {
            assert_eq!(
                adc.handle_interrupt(SEOC),
                Interrupted::Handled(vec![write(Register::Scr, 0x01)])
            );
        }
        assert_eq!(adc.handle_interrupt(SEOC), Interrupted::Sample);
        adc.sample_delivered();
    }
}

#[test]
fn timer_counts_no_further_than_it_can() {
    let mut adc = Adc::new(PERIPHERAL);
    configured(&mut adc, 10000, 4000000000);
    assert_eq!(adc.adc_clk_freq, 7812500);
    let actions = adc
        .sample_continuous_configured(&channel(), 23, Ok(()))
        .unwrap();
    assert_eq!(actions[2], write(Register::Itimer, 0xFFFF));
}

#[test]
fn slow_clocks_do_not_reach_every_frequency() {
    let mut adc = Adc::new(PERIPHERAL);
    configured(&mut adc, 10000, 12000);
    assert_eq!(adc.adc_clk_freq, 3000);
    assert!(!adc.continuous_timer_runs(10000, Ok(())));
    assert!(adc.continuous_timer_runs(3000, Ok(())));
    // what is refused needs no timer
    assert!(adc.continuous_timer_runs(10001, Ok(())));
    assert!(adc.continuous_timer_runs(10000, Err(ErrorCode::FAIL)));
    assert!(!adc.highspeed_timer_runs(10000, 1, Ok(())));
    assert!(adc.highspeed_timer_runs(10000, 0, Ok(())));
    configured(&mut adc, 1000, 12000);
    assert!(adc.continuous_timer_runs(10000, Ok(())));
    let mut adc = Adc::new(PERIPHERAL);
    configured(&mut adc, 250000, 1000000);
    assert!(adc.highspeed_timer_runs(250000, 1, Ok(())));
}

#[test]
fn continuous_frequencies_are_limited() {
    let mut adc = Adc::new(PERIPHERAL);
    configured(&mut adc, 10001, 48000000);
    assert_eq!(adc.sample_continuous(0), (vec![], Err(ErrorCode::INVAL)));
    assert_eq!(
        adc.sample_continuous_configured(&channel(), 10001, Ok(())),
        Err(ErrorCode::INVAL)
    );
    assert_eq!(
        adc.sample_continuous_configured(&channel(), 0, Ok(())),
        Err(ErrorCode::INVAL)
    );
}

fn highspeed(adc: &mut Adc) -> Vec<Action> {
    adc.sample_highspeed_configured(
        &channel(),
        100000,
        vec![1; 10],
        4,
        vec![2; 6],
        20,
        Ok(()),
    )
    .unwrap()
}

#[test]
fn sampling_into_buffers() {
    let mut adc = Adc::new(PERIPHERAL);
    adc.set_dma(DMAChannel(3));
    configured(&mut adc, 100000, 48000000);
    assert_eq!(
        highspeed(&mut adc),
        vec![
            write(Register::Seqcfg, 0x0075_8171),
            write(Register::Cr, 0x02),
            write(Register::Itimer, 14),
            write(Register::Scr, 0x2F),
            Action::Transfer {
                channel: DMAChannel(3),
                peripheral: PERIPHERAL,
                buffer: vec![1; 10],
                length: 4,
            },
            write(Register::Cr, 0x04),
        ]
    );
    assert!(adc.dma_running);
    assert_eq!(
        adc.provide_buffer(vec![3], 1),
        Err((ErrorCode::BUSY, vec![3]))
    );
    assert_eq!(adc.retrieve_buffers(), Err(ErrorCode::INVAL));

    // the first buffer is full, and the second one takes its place
    assert_eq!(adc.transfer_done(DMAPeripheral(1)), TransferDone::Ignored);
    assert_eq!(
        adc.transfer_done(PERIPHERAL),
        TransferDone::Abort(DMAChannel(3))
    );
    assert!(!adc.dma_running);
    let (actions, report) = adc.transfer_aborted(Some(vec![9; 10]));
    assert_eq!(
        actions,
        vec![Action::Transfer {
            channel: DMAChannel(3),
            peripheral: PERIPHERAL,
            buffer: vec![2; 6],
            length: 6,
        }]
    );
    assert_eq!(report, Some((vec![9; 10], 4)));
    assert_eq!(adc.provide_buffer(vec![3; 2], 2), Ok(()));

    // stop while the second buffer is being filled
    assert_eq!(
        adc.stop_sampling(),
        Ok(vec![
            write(Register::Cr, 0x02),
            write(Register::Idr, 0x01),
            write(Register::Cr, 0x01),
        ])
    );
    assert_eq!(Adc::disable(), (write(Register::Cr, 0x200), 10000));
    assert_eq!(adc.disable_polled(10000, EN), DisableStep::Poll(9999));
    assert_eq!(
        adc.disable_polled(9999, 0),
        DisableStep::Done(vec![
            write(Register::Cr, 0x820),
            Action::DisableGenericClock,
            Action::DisableBusClock,
        ])
    );
    // the client gets the buffer, and the number of samples that were asked for
    assert_eq!(
        adc.sampling_stopped(Some(vec![8; 6]), true),
        Some((vec![8; 6], 6))
    );
    assert_eq!(adc.retrieve_buffers(), Ok((Some(vec![3; 2]), None)));
    assert_eq!(adc.retrieve_buffers(), Ok((None, None)));
    assert_eq!(adc.stop_sampling(), Err(ErrorCode::OFF));
}

#[test]
fn both_buffers_come_back() {
    let mut adc = Adc::new(PERIPHERAL);
    adc.set_dma(DMAChannel(0));
    configured(&mut adc, 100000, 48000000);
    let actions = highspeed(&mut adc);
    let first = actions
        .into_iter()
        .find_map(|action| match action {
            Action::Transfer { buffer, .. } => Some(buffer),
            _ => None,
        })
        .unwrap();
    adc.stop_sampling().unwrap();
    // the converter never shows that it is disabled
    assert_eq!(adc.disable_polled(1, EN), DisableStep::Done(vec![]));
    assert!(adc.enabled);
    // there is no client to return the first buffer to
    assert_eq!(adc.sampling_stopped(Some(first), false), None);
    assert_eq!(adc.rx_length, 0);
    assert_eq!(
        adc.retrieve_buffers(),
        Ok((Some(vec![2; 6]), Some(vec![1; 10])))
    );
    assert_eq!(adc.stop_sampling(), Err(ErrorCode::INVAL));
}

#[test]
fn buffer_without_room_is_kept() {
    let mut adc = Adc::new(PERIPHERAL);
    adc.set_dma(DMAChannel(0));
    configured(&mut adc, 100000, 48000000);
    adc.sample_highspeed_configured(&channel(), 100000, vec![1; 2], 2, vec![2; 2], 0, Ok(()))
        .unwrap();
    adc.transfer_done(PERIPHERAL);
    let (actions, report) = adc.transfer_aborted(Some(vec![1; 2]));
    assert!(actions.is_empty());
    assert_eq!(report, Some((vec![1; 2], 2)));
    assert_eq!(adc.next_dma_buffer, Some(vec![2; 2]));
}

#[test]
fn without_a_dma_channel_nothing_is_transferred() {
    let mut adc = Adc::new(PERIPHERAL);
    configured(&mut adc, 100000, 48000000);
    let actions = highspeed(&mut adc);
    assert_eq!(actions.len(), 5);
    assert!(!adc.dma_running);
    assert_eq!(adc.transfer_done(PERIPHERAL), TransferDone::NoChannel);
    assert_eq!(adc.transfer_aborted(None), (vec![], None));
}

#[test]
fn highspeed_sampling_is_limited() {
    let mut adc = Adc::new(PERIPHERAL);
    configured(&mut adc, 100000, 48000000);
    let refused = |adc: &mut Adc, frequency, length| {
        adc.sample_highspeed_configured(
            &channel(),
            frequency,
            vec![1],
            length,
            vec![2],
            1,
            Ok(()),
        )
    };
    let invalid = Err((ErrorCode::INVAL, vec![1], vec![2]));
    // 1500000 / 65536 is 22
    assert_eq!(refused(&mut adc, 22, 1), invalid);
    assert_eq!(refused(&mut adc, 250001, 1), invalid);
    assert_eq!(refused(&mut adc, 100000, 0), invalid);
    assert!(refused(&mut adc, 250000, 1).is_ok());
    assert_eq!(
        refused(&mut adc, 250000, 1),
        Err((ErrorCode::BUSY, vec![1], vec![2]))
    );
}

#[test]
fn buffers_are_for_continuous_sampling() {
    let mut adc = Adc::new(PERIPHERAL);
    configured(&mut adc, 1000, 0);
    assert_eq!(
        adc.provide_buffer(vec![1], 1),
        Err((ErrorCode::INVAL, vec![1]))
    );
    adc.sample_configured(&channel(), Ok(())).unwrap();
    assert_eq!(
        adc.provide_buffer(vec![1], 1),
        Err((ErrorCode::INVAL, vec![1]))
    );
}

#[test]
fn stopped_converter_is_configured_anew() {
    let mut adc = Adc::new(PERIPHERAL);
    configured(&mut adc, 1000, 0);
    adc.sample_configured(&channel(), Ok(())).unwrap();
    adc.stop_sampling().unwrap();
    adc.disable_polled(10000, 0);
    assert_eq!(adc.sampling_stopped(None, true), None);
    assert!(!adc.enabled);
    let begun = adc.sample();
    let (actions, result) = configure(&mut adc, begun, &[0, EN, EN | BUFFERS], 0);
    assert_eq!(result, Ok(()));
    assert_eq!(actions.len(), 8);
    assert!(adc.enabled);
    assert!(adc.sample_configured(&channel(), result).is_ok());
}

#[test]
fn readings() {
    let adc = Adc::new(PERIPHERAL);
    assert_eq!(adc.get_resolution_bits(), 12);
    assert_eq!(adc.get_voltage_reference_mv(), Some(3300));
}
