use dpist::flows::{FlowKey, IpAddr};
use dpist::packet::Packet;
use dpist::techniques::delays::{
    BurstDelay, FixedDelay, FlowRateLimitDelay, JitterDelay, PacketPacingDelay, TransmissionTimer,
};
use dpist::techniques::drop_packets::DropEveryNth;
use dpist::techniques::http_fragmentation::HttpHeaderFragmentation;
use dpist::techniques::tcp_out_of_order::TcpOutOfOrder;
use dpist::techniques::tls_fragmentation::TlsClientHelloFragmentation;
use dpist::techniques::{
    build_modifier, run_pipeline, AnyModifier, BuildError, DelayConfig, Modifier, ModifierConfig,
    ModifyError,
};

const MS: u128 = 1_000_000;
const MAX: u128 = dpist::duration::MAX_DURATION_NANOS;

struct FloatTimer;

impl TransmissionTimer for FloatTimer {
    fn time(&self, bytes: usize, bytes_per_second: u64) -> u128 {
        self.transmission_time(bytes, bytes_per_second)
    }

    fn transmission_time(&self, bytes: usize, bytes_per_second: u64) -> u128 {
        std::time::Duration::from_secs_f64(bytes as f64 / bytes_per_second as f64).as_nanos()
    }
}

fn packet(ts: u128, data: Vec<u8>) -> Packet {
    Packet { timestamp: ts, data, flow_key: None }
}

/// An Ethernet/IPv4/TCP frame from 10.0.0.`a`:`sp` to 10.0.0.`b`:`dp`,
/// followed by `payload`.
fn tcp_frame(a: u8, b: u8, sp: u16, dp: u16, payload: &[u8]) -> Vec<u8> {
    let mut f = vec![0u8; 12];
    f.extend_from_slice(&[0x08, 0x00]);
    let total = (40 + payload.len()) as u16;
    f.extend_from_slice(&[0x45, 0, (total >> 8) as u8, total as u8, 0, 0, 0x40, 0, 64, 6, 0, 0]);
    f.extend_from_slice(&[10, 0, 0, a, 10, 0, 0, b]);
    f.extend_from_slice(&sp.to_be_bytes());
    f.extend_from_slice(&dp.to_be_bytes());
    f.extend_from_slice(&[0, 0, 0, 1, 0, 0, 0, 0, 0x50, 0x18, 0xff, 0xff, 0, 0, 0, 0]);
    f.extend_from_slice(payload);
    f
}

fn run_one<M: Modifier>(m: &mut M, p: Packet) -> (Result<(), ModifyError>, Vec<Packet>) {
    let mut out = Vec::new();
    let r = m.modify(p, &mut out);
    (r, out)
}

#[test]
fn fixed_delay_adds_its_delay() {
    let mut m = FixedDelay { delay: 100 * MS };
    let (r, out) = run_one(&mut m, packet(5, vec![1, 2, 3]));
    assert_eq!(r, Ok(()));
    assert_eq!(out, vec![packet(5 + 100 * MS, vec![1, 2, 3])]);
}

#[test]
fn fixed_delay_overflow_is_reported() {
    let mut m = FixedDelay { delay: 2 };
    let (r, out) = run_one(&mut m, packet(MAX - 1, vec![]));
    assert_eq!(r, Err(ModifyError::DurationOverflow));
    assert!(out.is_empty());
    let (r, out) = run_one(&mut m, packet(MAX - 2, vec![]));
    assert_eq!(r, Ok(()));
    assert_eq!(out[0].timestamp, MAX);
}

#[test]
fn jitter_stays_within_bounds_and_varies() {
    let mut m = JitterDelay::new(10 * MS, 1000 * MS);
    let mut delays = Vec::new();
    for i in 0..50u128 {
        let (r, out) = run_one(&mut m, packet(i, vec![7]));
        assert_eq!(r, Ok(()));
        assert_eq!(out.len(), 1);
        let d = out[0].timestamp - i;
        assert!(d >= 10 * MS && d <= 1000 * MS);
        assert_eq!(d % MS, 0);
        delays.push(d);
    }
    assert!(delays.iter().any(|d| *d != delays[0]));
    assert!(delays.iter().any(|d| *d != 10 * MS));
}

#[test]
fn jitter_counts_whole_milliseconds() {
    // 1.9 ms to 1.2 ms: both are 1 whole millisecond, so the delay is 1 ms.
    let mut m = JitterDelay::new(1_900_000, 1_200_000);
    let (r, out) = run_one(&mut m, packet(0, vec![]));
    assert_eq!(r, Ok(()));
    assert_eq!(out[0].timestamp, MS);
}

#[test]
fn jitter_empty_range_is_reported() {
    let m = JitterDelay::new(5 * MS, 4 * MS);
    assert_eq!(m.refuses(&packet(0, vec![])), Some(ModifyError::EmptyJitterRange));
    let m = JitterDelay::new(4 * MS, 4 * MS + 999_999);
    assert_eq!(m.refuses(&packet(0, vec![])), None);
}

#[test]
fn burst_passes_active_and_holds_paused_packets() {
    let mut m = BurstDelay::new(1000 * MS, 500 * MS);
    // 200 ms into the cycle: active, unchanged.
    let (r, out) = run_one(&mut m, packet(200 * MS + 5, vec![1]));
    assert_eq!(r, Ok(()));
    assert_eq!(out[0].timestamp, 200 * MS + 5);
    // 1200.5 ms: paused (position 1200 ms); moved to 1500.5 ms.
    let (r, out) = run_one(&mut m, packet(1200 * MS + 500_000, vec![1]));
    assert_eq!(r, Ok(()));
    assert_eq!(out[0].timestamp, 1500 * MS + 500_000);
    // 3100 ms: position 100 ms in the third cycle, active.
    let (_, out) = run_one(&mut m, packet(3100 * MS, vec![1]));
    assert_eq!(out[0].timestamp, 3100 * MS);
    // exactly at the start of a pause (1000 ms): held to 1500 ms.
    let (_, out) = run_one(&mut m, packet(1000 * MS, vec![1]));
    assert_eq!(out[0].timestamp, 1500 * MS);
}

#[test]
fn burst_of_zero_cycle_is_reported() {
    let m = BurstDelay::new(300_000, 400_000);
    assert_eq!(m.refuses(&packet(10, vec![])), Some(ModifyError::ZeroBurstCycle));
    let m = BurstDelay::new(300_000, 700_000);
    assert_eq!(m.refuses(&packet(10, vec![])), None);
}

#[test]
fn burst_cycle_overflow_is_reported() {
    let m = BurstDelay::new(MAX, 1);
    assert_eq!(m.refuses(&packet(10, vec![])), Some(ModifyError::DurationOverflow));
}

#[test]
fn pacing_spaces_packets_of_a_flow() {
    let mut m = PacketPacingDelay::new(100 * MS);
    let a = tcp_frame(1, 2, 4000, 80, b"x");
    let b = tcp_frame(2, 1, 80, 4000, b"y");
    let other = tcp_frame(3, 4, 5000, 80, b"z");
    let (_, o1) = run_one(&mut m, packet(0, a.clone()));
    let (_, o2) = run_one(&mut m, packet(10 * MS, b.clone()));
    let (_, o3) = run_one(&mut m, packet(20 * MS, other));
    let (_, o4) = run_one(&mut m, packet(500 * MS, a));
    assert_eq!(o1[0].timestamp, 0);
    // The reply belongs to the same flow: it waits until 100 ms.
    assert_eq!(o2[0].timestamp, 100 * MS);
    // Another flow is not held back.
    assert_eq!(o3[0].timestamp, 20 * MS);
    // Late enough: leaves when it arrives.
    assert_eq!(o4[0].timestamp, 500 * MS);
    assert_eq!(o2[0].data, b);
}

#[test]
fn pacing_passes_packets_without_flow() {
    let mut m = PacketPacingDelay::new(100 * MS);
    let (r, out) = run_one(&mut m, packet(7, vec![1, 2, 3]));
    assert_eq!(r, Ok(()));
    assert_eq!(out, vec![packet(7, vec![1, 2, 3])]);
    let (_, out) = run_one(&mut m, packet(8, vec![1, 2, 3]));
    assert_eq!(out[0].timestamp, 8);
}

#[test]
fn rate_limit_spaces_by_transmission_time() {
    let mut m = FlowRateLimitDelay::new(1000, FloatTimer);
    let f = tcp_frame(1, 2, 4000, 80, &[0u8; 60]);
    assert_eq!(f.len(), 114);
    let (_, o1) = run_one(&mut m, packet(0, f.clone()));
    let (_, o2) = run_one(&mut m, packet(0, f.clone()));
    let (_, o3) = run_one(&mut m, packet(0, f));
    assert_eq!(o1[0].timestamp, 0);
    assert_eq!(o2[0].timestamp, 114 * MS);
    assert_eq!(o3[0].timestamp, 228 * MS);
}

#[test]
fn rate_limit_of_zero_refuses_packets_of_a_flow() {
    let mut m = FlowRateLimitDelay::new(0, FloatTimer);
    let f = tcp_frame(1, 2, 4000, 80, b"x");
    assert_eq!(m.refuses(&packet(0, f)), Some(ModifyError::ZeroRate));
    assert_eq!(m.refuses(&packet(0, vec![1, 2])), None);
    let (r, out) = run_one(&mut m, packet(4, vec![1, 2]));
    assert_eq!(r, Ok(()));
    assert_eq!(out, vec![packet(4, vec![1, 2])]);
}

#[test]
fn rate_limit_gap_follows_packet_length() {
    // 1000 bytes per second: 54 bytes take 54 ms, 114 bytes 114 ms.
    let mut m = FlowRateLimitDelay::new(1000, FloatTimer);
    let short = tcp_frame(1, 2, 4000, 80, &[]);
    let long = tcp_frame(1, 2, 4000, 80, &[0u8; 60]);
    assert_eq!(short.len(), 54);
    let (_, o1) = run_one(&mut m, packet(0, short));
    let (_, o2) = run_one(&mut m, packet(0, long.clone()));
    let (_, o3) = run_one(&mut m, packet(0, long));
    assert_eq!(o1[0].timestamp, 0);
    assert_eq!(o2[0].timestamp, 54 * MS);
    assert_eq!(o3[0].timestamp, 168 * MS);
}

#[test]
fn drop_every_third() {
    let mut m = DropEveryNth { n: 3, counter: 0 };
    let mut kept = Vec::new();
    for i in 1..=9u8 {
        let (r, out) = run_one(&mut m, packet(i as u128, vec![i]));
        assert_eq!(r, Ok(()));
        kept.extend(out.into_iter().map(|p| p.data[0]));
    }
    assert_eq!(kept, vec![1, 2, 4, 5, 7, 8]);
    assert_eq!(m.counter, 9);
}

#[test]
fn drop_with_zero_never_drops() {
    let mut m = DropEveryNth { n: 0, counter: 0 };
    for i in 0..5u128 {
        let (_, out) = run_one(&mut m, packet(i, vec![]));
        assert_eq!(out.len(), 1);
    }
}

#[test]
fn drop_counter_overflow_is_reported() {
    let mut m = DropEveryNth { n: 2, counter: u64::MAX };
    let (r, out) = run_one(&mut m, packet(0, vec![]));
    assert_eq!(r, Err(ModifyError::CounterOverflow));
    assert!(out.is_empty());
}

#[test]
fn http_request_is_fragmented() {
    let mut m = HttpHeaderFragmentation::new(4);
    let data = b"GET /index.html".to_vec();
    let (r, out) = run_one(&mut m, packet(100, data.clone()));
    assert_eq!(r, Ok(()));
    let pieces: Vec<Vec<u8>> = out.iter().map(|p| p.data.clone()).collect();
    assert_eq!(
        pieces,
        vec![b"GET ".to_vec(), b"/ind".to_vec(), b"ex.h".to_vec(), b"tml".to_vec()]
    );
    let times: Vec<u128> = out.iter().map(|p| p.timestamp).collect();
    assert_eq!(times, vec![100, 1100, 2100, 3100]);
    assert_eq!(pieces.concat(), data);
}

#[test]
fn http_other_methods_and_non_requests() {
    let mut m = HttpHeaderFragmentation::new(3);
    for method in [&b"POST /"[..], b"PUT x", b"DELETE y", b"HEAD /"] {
        let (_, out) = run_one(&mut m, packet(0, method.to_vec()));
        assert!(out.len() > 1);
    }
    for other in [&b"GETX"[..], b"get /", b"", b"OPTIONS /"] {
        let (r, out) = run_one(&mut m, packet(3, other.to_vec()));
        assert_eq!(r, Ok(()));
        assert_eq!(out, vec![packet(3, other.to_vec())]);
    }
}

#[test]
fn http_zero_fragment_size_is_reported() {
    let mut m = HttpHeaderFragmentation::new(0);
    assert_eq!(m.refuses(&packet(0, b"GET /".to_vec())), Some(ModifyError::ZeroFragmentSize));
    assert_eq!(m.refuses(&packet(0, b"hello".to_vec())), None);
    let (r, out) = run_one(&mut m, packet(0, b"hello".to_vec()));
    assert_eq!(r, Ok(()));
    assert_eq!(out, vec![packet(0, b"hello".to_vec())]);
}

fn client_hello_frame(len: usize) -> Vec<u8> {
    let mut payload = vec![0x16, 0x03, 0x01, 0x00, 0x40, 0x01];
    while payload.len() < len {
        payload.push(payload.len() as u8);
    }
    tcp_frame(1, 2, 5555, 443, &payload)[..34].iter().copied().chain(payload).collect()
}

#[test]
fn tls_client_hello_is_fragmented_behind_headers() {
    let frame = client_hello_frame(20);
    assert_eq!(frame.len(), 54);
    let mut m = TlsClientHelloFragmentation::new(8);
    let (r, out) = run_one(&mut m, packet(0, frame.clone()));
    assert_eq!(r, Ok(()));
    assert_eq!(out.len(), 3);
    for (i, p) in out.iter().enumerate() {
        assert_eq!(&p.data[..34], &frame[..34]);
        assert_eq!(p.timestamp, i as u128 * 1000);
    }
    let rest: Vec<u8> = out.iter().flat_map(|p| p.data[34..].to_vec()).collect();
    assert_eq!(rest, frame[34..].to_vec());
    assert_eq!(out[2].data.len(), 34 + 4);
}

#[test]
fn tls_passes_other_packets() {
    let mut m = TlsClientHelloFragmentation::new(8);
    let mut not_ipv4 = client_hello_frame(20);
    not_ipv4[12] = 0x86;
    not_ipv4[13] = 0xdd;
    let just_headers = client_hello_frame(20)[..34].to_vec();
    let mut not_hello = client_hello_frame(20);
    not_hello[34 + 5] = 0x02;
    let short_record = client_hello_frame(6);
    for data in [not_ipv4, just_headers, not_hello, short_record, vec![1, 2, 3]] {
        let (r, out) = run_one(&mut m, packet(9, data.clone()));
        assert_eq!(r, Ok(()));
        assert_eq!(out, vec![packet(9, data)]);
    }
}

#[test]
fn tls_zero_fragment_size_is_reported() {
    let m = TlsClientHelloFragmentation::new(0);
    assert_eq!(m.refuses(&packet(0, client_hello_frame(20))), Some(ModifyError::ZeroFragmentSize));
    assert_eq!(m.refuses(&packet(0, vec![1, 2, 3])), None);
}

#[test]
fn tls_fragment_time_overflow_is_reported() {
    let mut m = TlsClientHelloFragmentation::new(1);
    let (r, _) = run_one(&mut m, packet(MAX - 1000, client_hello_frame(20)));
    assert_eq!(r, Err(ModifyError::DurationOverflow));
}

fn keyed(ts: u128, tag: u8, key: Option<FlowKey>) -> Packet {
    Packet { timestamp: ts, data: vec![tag], flow_key: key }
}

#[test]
fn out_of_order_releases_reversed_groups() {
    let k = FlowKey {
        src_ip: IpAddr::V4(1),
        dst_ip: IpAddr::V4(2),
        src_port: 1,
        dst_port: 2,
        protocol: 6,
    };
    let mut m = TcpOutOfOrder::new(3);
    let mut out = Vec::new();
    assert_eq!(m.modify(keyed(0, 1, Some(k)), &mut out), Ok(()));
    assert_eq!(m.modify(keyed(1, 10, None), &mut out), Ok(()));
    assert_eq!(m.modify(keyed(2, 2, Some(k)), &mut out), Ok(()));
    assert!(out.is_empty());
    assert_eq!(m.modify(keyed(3, 3, Some(k)), &mut out), Ok(()));
    let tags: Vec<u8> = out.iter().map(|p| p.data[0]).collect();
    assert_eq!(tags, vec![3, 2, 1]);
    let originals = [3u128, 2, 0];
    for (p, t) in out.iter().zip(originals) {
        let d = p.timestamp - t;
        assert!(d <= 3 * MS && d % MS == 0);
    }
    // The group starts again empty.
    let mut more = Vec::new();
    assert_eq!(m.modify(keyed(4, 4, Some(k)), &mut more), Ok(()));
    assert!(more.is_empty());
}

#[test]
fn out_of_order_window_of_one_sends_each_packet() {
    let mut m = TcpOutOfOrder::new(1);
    let mut out = Vec::new();
    for i in 0..20u128 {
        assert_eq!(m.modify(keyed(i, i as u8, None), &mut out), Ok(()));
    }
    assert_eq!(out.len(), 20);
    let delays: Vec<u128> = out.iter().enumerate().map(|(i, p)| p.timestamp - i as u128).collect();
    assert!(delays.iter().all(|d| *d == 0 || *d == MS));
    assert!(delays.iter().any(|d| *d == MS));
    assert!(delays.iter().any(|d| *d == 0));
}

#[test]
fn out_of_order_overflow_is_reported() {
    let mut m = TcpOutOfOrder::new(0);
    let mut out = Vec::new();
    assert_eq!(m.modify(keyed(MAX, 1, None), &mut out), Ok(()));
    let r = m.modify(keyed(MAX, 1, None), &mut out);
    // with a window of 0 the delay is always 0 ms: no overflow at the maximum itself.
    assert_eq!(r, Ok(()));
}

#[test]
fn build_modifier_converts_milliseconds() {
    match build_modifier(ModifierConfig::Delay(DelayConfig::Fixed { millis: 250 }), FloatTimer) {
        Ok(AnyModifier::FixedDelay(f)) => assert_eq!(f.delay, 250 * MS),
        _ => panic!("expected a fixed delay"),
    }
    match build_modifier(
        ModifierConfig::Delay(DelayConfig::Burst { active_ms: 1000, pause_ms: 500 }),
        FloatTimer,
    ) {
        Ok(AnyModifier::BurstDelay(b)) => {
            assert_eq!(b.active, 1000 * MS);
            assert_eq!(b.pause, 500 * MS);
        }
        _ => panic!("expected a burst delay"),
    }
    match build_modifier(ModifierConfig::DropEveryNth { n: 4 }, FloatTimer) {
        Ok(AnyModifier::DropEveryNth(d)) => {
            assert_eq!(d.n, 4);
            assert_eq!(d.counter, 0);
        }
        _ => panic!("expected a drop modifier"),
    }
}

#[test]
fn build_modifier_refuses_tcp_segmentation() {
    let r = build_modifier(ModifierConfig::TcpSegmentation { segment_size: 10 }, FloatTimer);
    assert!(matches!(r, Err(BuildError::TcpSegmentationUnavailable)));
}

#[test]
fn pipeline_applies_modifiers_in_order_and_sorts() {
    let packets = vec![
        packet(0, vec![0]),
        packet(10 * MS, vec![1]),
        packet(20 * MS, vec![2]),
        packet(30 * MS, vec![3]),
    ];
    let mut ms: Vec<AnyModifier<FloatTimer>> = vec![
        build_modifier(ModifierConfig::DropEveryNth { n: 2 }, FloatTimer).unwrap(),
        build_modifier(ModifierConfig::Delay(DelayConfig::Fixed { millis: 5 }), FloatTimer)
            .unwrap(),
    ];
    let out = run_pipeline(packets, &mut ms).unwrap();
    assert_eq!(out, vec![packet(5 * MS, vec![0]), packet(25 * MS, vec![2])]);
    match &ms[0] {
        AnyModifier::DropEveryNth(d) => assert_eq!(d.counter, 4),
        _ => panic!("modifier order changed"),
    }
}

#[test]
fn pipeline_sorts_by_time() {
    let packets = vec![packet(30, vec![3]), packet(10, vec![1]), packet(20, vec![2])];
    let mut ms: Vec<AnyModifier<FloatTimer>> = Vec::new();
    let out = run_pipeline(packets, &mut ms).unwrap();
    let ts: Vec<u128> = out.iter().map(|p| p.timestamp).collect();
    assert_eq!(ts, vec![10, 20, 30]);
}

#[test]
fn pipeline_reports_the_first_failure() {
    let packets = vec![packet(0, b"GET /".to_vec())];
    let mut ms: Vec<AnyModifier<FloatTimer>> = vec![
        build_modifier(ModifierConfig::HttpHeaderFragmentation { fragment_size: 0 }, FloatTimer)
            .unwrap(),
    ];
    assert_eq!(run_pipeline(packets, &mut ms), Err(ModifyError::ZeroFragmentSize));
}
