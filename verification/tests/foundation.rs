use guigu_agent_bridge::bus::memory::MpscEventSink;
use guigu_agent_bridge::bus::memory::queued_event;
use guigu_agent_bridge::ids::ConversationId;
use guigu_agent_bridge::ids::DeliveryId;
use guigu_agent_bridge::ids::EndpointId;
use guigu_agent_bridge::ids::EventId;
use guigu_agent_bridge::ids::TaskId;
use guigu_agent_bridge::net::IpAddr;
use guigu_agent_bridge::storage::StorageError;
use guigu_agent_bridge::text::byte_len;
use guigu_agent_bridge::text::comes_before;
use guigu_agent_bridge::text::concat2;
use guigu_agent_bridge::text::concat3;
use guigu_agent_bridge::text::decimal_text;
use guigu_agent_bridge::text::fit_bytes;
use guigu_agent_bridge::text::join;
use guigu_agent_bridge::text::same_text;
use guigu_agent_bridge::text::signed_decimal_text;
use guigu_agent_bridge::text::trim;
use guigu_agent_bridge::time::Duration;
use guigu_agent_bridge::time::Timestamp;

#[test]
fn text_is_cut_between_characters() {
    assert_eq!(fit_bytes("abc", 3), "abc");
    assert_eq!(fit_bytes("abc", 2), "ab");
    assert_eq!(fit_bytes("aé€😀", 10), "aé€😀");
    assert_eq!(fit_bytes("aé€😀", 9), "aé€");
    assert_eq!(fit_bytes("aé€😀", 5), "aé");
    assert_eq!(fit_bytes("aé€😀", 2), "a");
    assert_eq!(fit_bytes("é", 1), "");
    assert_eq!(fit_bytes("", 0), "");
    assert_eq!(byte_len("aé€😀"), 10);
}

#[test]
fn numbers_are_written_in_decimal() {
    assert_eq!(decimal_text(0), "0");
    assert_eq!(decimal_text(10), "10");
    assert_eq!(decimal_text(u64::MAX), u64::MAX.to_string());
    assert_eq!(signed_decimal_text(0), "0");
    assert_eq!(signed_decimal_text(-7), "-7");
    assert_eq!(signed_decimal_text(i64::MIN), i64::MIN.to_string());
    assert_eq!(signed_decimal_text(i64::MAX), i64::MAX.to_string());
}

#[test]
fn texts_are_joined_and_compared() {
    assert_eq!(join(&Vec::new(), ", "), "");
    assert_eq!(join(&vec!["a".to_owned()], ", "), "a");
    assert_eq!(join(&vec!["a".to_owned(), "b".to_owned()], ", "), "a, b");
    assert_eq!(concat2("a", "b"), "ab");
    assert_eq!(concat3("a", "b", "c"), "abc");
    assert!(same_text("a", "a"));
    assert!(!same_text("a", "ab"));
    assert!(!same_text("a", "b"));
    assert!(comes_before("a", "ab"));
    assert!(comes_before("Z", "a"));
    assert!(comes_before("z", "é"));
    assert!(!comes_before("a", "a"));
}

#[test]
fn white_space_is_trimmed_at_both_ends() {
    for text in [" a b ", "\t\r\n", "", "\u{85}x\u{2003}", "\u{feff}x", "\u{200b}x", "\u{1680}y"] {
        assert_eq!(trim(text), text.trim());
    }
}

#[test]
fn instants_move_by_spans() {
    let at = Timestamp::new(10, 999_999_999).expect("an instant");
    let on = at.checked_add(Duration::from_millis(1)).expect("an instant");
    assert_eq!((on.secs(), on.subsec_nanos()), (11, 999_999));
    let back = on.checked_sub(Duration::from_millis(1)).expect("an instant");
    assert_eq!(back, at);
    let before = at.checked_sub(Duration::from_secs(11)).expect("an instant");
    assert_eq!((before.secs(), before.subsec_nanos()), (-1, 999_999_999));
    assert!(before.at_or_before(&at));
    assert!(!at.at_or_before(&before));
    assert_eq!(at.checked_add(Duration::longest()), None);
    assert_eq!(at.saturating_add(Duration::longest()), Timestamp::last());
    assert_eq!(Timestamp::last().checked_add(Duration::from_millis(1)), None);
    assert_eq!(Timestamp::new(0, 1_000_000_000), None);
}

#[test]
fn the_last_instant_is_that_of_the_calendar() {
    let last = chrono::DateTime::<chrono::Utc>::MAX_UTC;
    assert_eq!(Timestamp::last().secs(), last.timestamp());
    assert_eq!(Timestamp::last().subsec_nanos(), last.timestamp_subsec_nanos());
    let first = chrono::DateTime::<chrono::Utc>::MIN_UTC;
    assert!(Timestamp::new(first.timestamp(), 0).is_some());
    assert!(Timestamp::new(first.timestamp() - 1, 0).is_none());
    let start = Timestamp::new(first.timestamp(), 0).expect("an instant");
    assert_eq!(start.checked_add(Duration::zero()), Some(start));
    assert_eq!(start.checked_sub(Duration::zero()), Some(start));
    assert_eq!(start.checked_sub(Duration::from_millis(1)), None);
    let whole = Duration::from_secs(last.timestamp().abs_diff(first.timestamp()));
    let end = start.checked_add(whole).expect("an instant");
    assert_eq!((end.secs(), end.subsec_nanos()), (last.timestamp(), 0));
}

#[test]
fn spans_saturate() {
    assert_eq!(Duration::from_millis(1500).as_secs(), 1);
    assert_eq!(Duration::from_millis(1500).subsec_nanos(), 500_000_000);
    let hour = Duration::from_secs(3600);
    assert_eq!(Duration::from_millis(1500).doubled(1, hour), Duration::from_secs(3));
    assert_eq!(Duration::from_millis(1500).doubled(0, hour), Duration::from_millis(1500));
    assert_eq!(Duration::from_secs(1).doubled(u32::MAX, hour), hour);
    assert_eq!(Duration::zero().doubled(u32::MAX, hour), Duration::zero());
    assert_eq!(Duration::longest().doubled(1, Duration::longest()), Duration::longest());
    assert_eq!(
        Duration::longest().as_secs(),
        std::time::Duration::MAX.as_secs()
    );
    assert!(Duration::zero().is_zero());
    let edge = |secs: u64| {
        (
            Duration::from_secs(secs).fits_signed(),
            chrono::Duration::from_std(std::time::Duration::from_secs(secs)).is_ok(),
        )
    };
    assert_eq!(edge(9_223_372_036_854_775), (true, true));
    assert_eq!(edge(9_223_372_036_854_776), (false, false));
}

#[test]
fn ids_are_read_as_they_are_written() {
    let text = "01890a5d-ac96-774b-bcce-b302099a8057";
    let id = TaskId::parse(text).expect("an id");
    assert_eq!(id.as_u128(), 0x01890a5d_ac96_774b_bcce_b302099a8057);
    assert_eq!(id.to_string(), text);
    assert_eq!(TaskId::parse("01890A5DAC96774BBCCEB302099A8057"), Some(id));
    assert_eq!(TaskId::parse("01890a5d"), None);
    assert_eq!(EventId::from_u128(1).to_string(), "00000000-0000-0000-0000-000000000001");
    assert_eq!(DeliveryId::parse(&DeliveryId::from_u128(7).to_string()), Some(DeliveryId::from_u128(7)));
    assert_eq!(EndpointId::parse("x"), None);
    let fresh = ConversationId::generate();
    assert_ne!(fresh, ConversationId::generate());
    assert_eq!(uuid::Uuid::from_u128(fresh.as_u128()).get_version_num(), 7);
}

#[test]
fn addresses_are_classified_as_the_standard_library_does() {
    for bits in [
        0u32, 0x7f00_0001, 0x7fff_ffff, 0x8000_0000, 0x0a00_0001, 0x0b00_0000, 0xac10_0000,
        0xac1f_ffff, 0xac20_0000, 0xc0a8_0001, 0xc0a9_0000, 0xa9fe_0001, 0xe000_0001,
        0xefff_ffff, 0xf000_0000, 0xffff_ffff,
    ] {
        let own = IpAddr::V4(bits);
        let ip = core::net::Ipv4Addr::from(bits);
        assert_eq!(own.is_unspecified(), ip.is_unspecified());
        assert_eq!(own.is_multicast(), ip.is_multicast());
        assert_eq!(own.is_loopback(), ip.is_loopback());
        assert_eq!(own.is_private_or_link_local(), ip.is_private() || ip.is_link_local());
    }
    for bits in [0u128, 1, 0xfe80 << 112, 0xfebf << 112, 0xfec0 << 112, 0xfc00 << 112,
        0xfdff << 112, 0xff02 << 112, 0x2001 << 112, 0xffff_7f00_0001]
    {
        let own = IpAddr::V6(bits);
        let ip = core::net::Ipv6Addr::from(bits);
        assert_eq!(own.is_unspecified(), ip.is_unspecified());
        assert_eq!(own.is_multicast(), ip.is_multicast());
        assert_eq!(own.is_loopback(), ip.is_loopback());
        assert_eq!(
            own.is_private_or_link_local(),
            (ip.segments()[0] & 0xffc0) == 0xfe80 || (ip.segments()[0] & 0xfe00) == 0xfc00
        );
    }
}

#[test]
fn store_failures_render_their_words() {
    assert_eq!(
        StorageError::Unavailable { detail: "locked".into() }.to_string(),
        "storage is unavailable: locked"
    );
    assert_eq!(
        StorageError::Duplicate { entity: "task".into() }.to_string(),
        "duplicate task"
    );
}

#[test]
fn a_full_event_buffer_refuses() {
    let (mut sink, mut events) = MpscEventSink::new(1);
    let now = Timestamp::new(0, 0).expect("an instant");
    let event = queued_event(TaskId::from_u128(1), now);
    assert!(sink.emit(event.clone()).is_ok());
    assert!(sink.emit(event.clone()).is_err());
    assert_eq!(events.try_recv().ok(), Some(event));
}
