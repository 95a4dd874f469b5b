use adc_io::channel::{bit, init_channels, sequence_for, AdcError, ChannelSpec};
use adc_io::engine::{Adc, AdcAction, Dispatch, Notice};

fn spec(id: u8) -> ChannelSpec {
    ChannelSpec { channel_id: id, resolution: 12, differential: false }
}

fn engine(ids: &[u8]) -> Adc<u8> {
    let channels: Vec<ChannelSpec> = ids.iter().map(|&i| spec(i)).collect();
    let status = vec![0i32; channels.len()];
    match Adc::new(channels, &status) {
        Ok(adc) => adc,
        Err(e) => panic!("engine refused: {:?}", e),
    }
}

fn invoked(d: Dispatch<u8>) -> (u8, usize, i16) {
    match d {
        Dispatch::Invoke(Notice { handler, index, value }) => (handler, index, value),
        Dispatch::Defer => panic!("deferred instead of invoked"),
        Dispatch::Nothing => panic!("nothing dispatched"),
    }
}

fn is_nothing(d: Dispatch<u8>) -> bool {
    matches!(d, Dispatch::Nothing)
}

fn is_defer(d: Dispatch<u8>) -> bool {
    matches!(d, Dispatch::Defer)
}

#[test]
fn bit_masks() {
    assert_eq!(bit(0), 1);
    assert_eq!(bit(3), 8);
    assert_eq!(bit(31), 0x8000_0000);
}

#[test]
fn sequence_request_fields() {
    let r = sequence_for(ChannelSpec { channel_id: 5, resolution: 10, differential: true }, 2, 500_000);
    assert_eq!(r.channel_index, 2);
    assert_eq!(r.channels, 32);
    assert_eq!(r.resolution, 10);
    assert_eq!(r.interval_us, 500_000);
    assert_eq!(r.extra_samplings, 0);
    assert_eq!(r.oversampling, 0);
    assert!(!r.calibrate);
}

#[test]
fn init_rejects_bad_tables() {
    assert_eq!(init_channels(&vec![], &vec![]), Err(AdcError::ConfigurationError));
    assert_eq!(init_channels(&vec![spec(0)], &vec![]), Err(AdcError::ConfigurationError));
    assert_eq!(init_channels(&vec![spec(0), spec(1)], &vec![0, -5]), Err(AdcError::ConfigurationError));
    assert_eq!(init_channels(&vec![spec(32)], &vec![0]), Err(AdcError::ConfigurationError));
    assert_eq!(init_channels(&vec![spec(0), spec(31)], &vec![0, 3]), Ok(()));
}

#[test]
fn new_reports_configuration_error() {
    let r = Adc::<u8>::new(vec![spec(0)], &vec![-19]);
    assert!(matches!(r, Err(AdcError::ConfigurationError)));
    let r = Adc::<u8>::new(vec![], &vec![]);
    assert!(matches!(r, Err(AdcError::ConfigurationError)));
}

#[test]
fn new_starts_with_zero_samples() {
    let adc = engine(&[0, 1, 2]);
    assert_eq!(adc.get_value(0), Ok(0));
    assert_eq!(adc.get_value(2), Ok(0));
    assert_eq!(adc.get_channel(1), Ok(spec(1)));
}

#[test]
fn single_channel_one_shot_normal_callback() {
    let mut adc = engine(&[4]);
    let req = adc.read_async(0, Some(1));
    assert_eq!(req.channel_index, 0);
    assert_eq!(req.channels, 16);
    assert_eq!(req.interval_us, 0);
    assert_eq!(adc.complete_submission(0), Ok(()));
    let f = adc.hard_isr(2048);
    assert_eq!(f.action, AdcAction::Repeat);
    assert!(is_defer(f.dispatch));
    let d = adc.soft_isr();
    assert!(d.resubmit.is_none());
    let n = d.notice.expect("normal callback armed");
    assert_eq!((n.handler, n.index, n.value), (1, 0, 2048));
}

#[test]
fn two_channels_isr_callback_round() {
    let mut adc = engine(&[0, 1]);
    adc.read_async_isr(0, Some(7));
    let f1 = adc.hard_isr(100);
    assert_eq!(f1.action, AdcAction::Continue);
    assert_eq!(invoked(f1.dispatch), (7, 0, 100));
    let f2 = adc.hard_isr(200);
    assert_eq!(f2.action, AdcAction::Repeat);
    assert!(is_nothing(f2.dispatch));
    let f3 = adc.hard_isr(200);
    assert_eq!(f3.action, AdcAction::Continue);
    assert_eq!(invoked(f3.dispatch), (7, 1, 200));
    // the next firing is channel 0 again
    let f4 = adc.hard_isr(300);
    assert_eq!(invoked(f4.dispatch), (7, 0, 300));
    assert_eq!(adc.get_value(0), Ok(300));
    assert_eq!(adc.get_value(1), Ok(200));
}

#[test]
fn submission_failure_delivers_nothing() {
    let mut adc = engine(&[0]);
    adc.read_async(0, Some(3));
    assert_eq!(adc.complete_submission(-5), Err(AdcError::SubmissionError));
    for s in [1i16, 2, 3] {
        let f = adc.hard_isr(s);
        assert_eq!(f.action, AdcAction::Finish);
        assert!(is_nothing(f.dispatch));
    }
    assert!(adc.soft_isr().notice.is_none());
}

#[test]
fn single_channel_never_finishes_without_cancel() {
    let mut adc = engine(&[2]);
    adc.read_async_isr(1000, Some(5));
    for s in 0i16..10 {
        let f = adc.hard_isr(s);
        assert_eq!(f.action, AdcAction::Repeat);
        assert_eq!(invoked(f.dispatch), (5, 0, s));
    }
    adc.cancel_read();
    let f = adc.hard_isr(42);
    assert_eq!(f.action, AdcAction::Finish);
    assert!(is_nothing(f.dispatch));
}

#[test]
fn full_round_of_four_channels() {
    let mut adc = engine(&[0, 1, 2, 3]);
    adc.read_async_isr(0, Some(9));
    let mut delivered = Vec::new();
    for s in [10i16, 11, 12, 13, 14] {
        let f = adc.hard_isr(s);
        if let Dispatch::Invoke(n) = f.dispatch {
            delivered.push((n.index, n.value));
        }
    }
    assert_eq!(delivered, vec![(0, 10), (1, 11), (2, 12), (3, 14)]);
    // back at channel 0, in Continue
    let f = adc.hard_isr(20);
    assert_eq!(f.action, AdcAction::Continue);
    assert_eq!(invoked(f.dispatch), (9, 0, 20));
}

#[test]
fn deferred_work_reports_completed_channel() {
    let mut adc = engine(&[0, 6, 7]);
    let first = adc.read_async(250, Some(4));
    assert_eq!(first.channels, 1);
    let expected = [(0usize, 50i16, 1usize), (1, 60, 2)];
    for (ch, s, next) in expected {
        let f = adc.hard_isr(s);
        assert_eq!(f.action, AdcAction::Continue);
        assert!(is_defer(f.dispatch));
        let d = adc.soft_isr();
        let r = d.resubmit.expect("several channels re-arm");
        assert_eq!(r.channel_index, next);
        assert_eq!(r.interval_us, 250);
        let n = d.notice.expect("normal callback armed");
        assert_eq!((n.handler, n.index, n.value), (4, ch, s));
    }
    let f = adc.hard_isr(70);
    assert_eq!(f.action, AdcAction::Repeat);
    assert!(is_nothing(f.dispatch));
    let f = adc.hard_isr(71);
    assert!(is_defer(f.dispatch));
    let d = adc.soft_isr();
    assert_eq!(d.resubmit.map(|r| r.channels), Some(1));
    let n = d.notice.expect("normal callback armed");
    assert_eq!((n.index, n.value), (2, 71));
}

#[test]
fn cancel_twice_same_as_once() {
    let mut once = engine(&[0, 1]);
    let mut twice = engine(&[0, 1]);
    once.read_async_isr(0, Some(1));
    twice.read_async_isr(0, Some(1));
    once.cancel_read();
    twice.cancel_read();
    twice.cancel_read();
    for s in [5i16, 6] {
        let a = once.hard_isr(s);
        let b = twice.hard_isr(s);
        assert_eq!(a.action, AdcAction::Finish);
        assert_eq!(b.action, AdcAction::Finish);
        assert!(is_nothing(a.dispatch) && is_nothing(b.dispatch));
    }
    assert_eq!(once.get_value(0), twice.get_value(0));
}

#[test]
fn out_of_range_reads() {
    let mut adc = engine(&[0, 1]);
    adc.read_async_isr(0, Some(1));
    adc.hard_isr(-12);
    assert_eq!(adc.get_value(0), Ok(-12));
    assert_eq!(adc.get_value(2), Err(AdcError::OutOfRange));
    assert_eq!(adc.get_value(usize::MAX), Err(AdcError::OutOfRange));
    assert_eq!(adc.get_voltage(2, |_, v| v), Err(AdcError::OutOfRange));
    assert_eq!(adc.get_channel(5), Err(AdcError::OutOfRange));
}

#[test]
fn voltage_goes_through_converter() {
    let mut adc = engine(&[0]);
    adc.read_async(0, None);
    adc.hard_isr(2048);
    // 3300 mV reference, 12-bit resolution
    let mv = adc.get_voltage(0, |c: ChannelSpec, raw: i32| (raw * 3300) >> c.resolution);
    assert_eq!(mv, Ok(1650));
}

#[test]
fn no_handler_defers_without_notice() {
    let mut adc = engine(&[0]);
    adc.read_async(0, None);
    let f = adc.hard_isr(1);
    assert!(is_defer(f.dispatch));
    assert!(adc.soft_isr().notice.is_none());
}

#[test]
fn function_pointer_handlers() {
    fn double(index: usize, value: i16) -> i32 {
        index as i32 * 1000 + value as i32 * 2
    }
    let mut adc: Adc<fn(usize, i16) -> i32> =
        Adc::new(vec![spec(0), spec(1)], &vec![0, 0]).expect("usable table");
    adc.read_async_isr(0, Some(double));
    let f = adc.hard_isr(21);
    match f.dispatch {
        Dispatch::Invoke(n) => assert_eq!((n.handler)(n.index, n.value), 42),
        _ => panic!("expected an interrupt-context invocation"),
    }
}
