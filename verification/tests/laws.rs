use landlock_observability::event::{
    CapturedString, CreateDomainEvent, CreateRulesetEvent, DenialContext, DenyAccessFsEvent,
    DomainId, Event, FilesystemAccess, HierarchySnapshot, KernelTimestamp, NetworkAccess,
    RulesetId, ScopeAccess,
};
use landlock_observability::aggregate::DenialAggregator;
use landlock_observability::lltop::batch::Batch;
use landlock_observability::lltop::format::wrap;
use landlock_observability::lltop::model::ObservationModel;
use landlock_observability::lltop::records::escape;
use landlock_observability::lltop::rows::{domain_rows, ruleset_rows};
use landlock_observability::lltop::view::{App, RowKind};

fn captured(bytes: &[u8]) -> CapturedString {
    CapturedString::new(bytes.to_vec(), false).unwrap()
}

fn fs_denial(seconds: u64, path: &[u8]) -> Event {
    Event::DenyAccessFs(DenyAccessFsEvent::new(
        KernelTimestamp::from_nanoseconds(seconds * 1_000_000_000),
        DenialContext::new(
            HierarchySnapshot::new(DomainId::new(0x10), None, 10, captured(b"creator")),
            seconds,
            true,
            false,
        ),
        FilesystemAccess::from_bits(4),
        1,
        2,
        captured(path),
    ))
}

fn create(id: u64, parent: Option<u64>) -> Event {
    Event::CreateDomain(CreateDomainEvent::new(
        KernelTimestamp::from_nanoseconds(id),
        RulesetId::new(1),
        0,
        DomainId::new(id),
        parent.map(DomainId::new),
        1,
        captured(b"x"),
    ))
}

fn unescape(text: &str) -> Vec<u8> {
    let bytes = text.as_bytes();
    let mut out = Vec::new();
    let mut index = 0;
    while index < bytes.len() {
        if bytes[index] == b'\\' {
            let digits = std::str::from_utf8(&bytes[index + 2..index + 4]).unwrap();
            out.push(u8::from_str_radix(digits, 16).unwrap());
            index += 4;
        } else {
            out.push(bytes[index]);
            index += 1;
        }
    }
    out
}

#[test]
fn escaped_bytes_form_one_reversible_token() {
    let raw: Vec<u8> = (1..=255).collect();
    let escaped = escape(&CapturedString::new(raw.clone(), false).unwrap());
    assert!(escaped.chars().all(|c| c.is_ascii_alphanumeric()
        || c == '_'
        || c == '-'
        || c == '.'
        || c == '/'
        || c == '\\'));
    assert_eq!(unescape(&escaped), raw);
    assert_eq!(escape(&captured(b"a\\x41")), "a\\x5cx41");
    assert_ne!(escape(&captured(b"a\\x41")), escape(&captured(b"aA")));
}

#[test]
fn wrapping_keeps_every_character() {
    let text = "read_file, write_file, /some/long/path with spaces é";
    for (first, rest) in [(1, 1), (5, 3), (12, 7), (80, 80), (0, 0)] {
        let lines = wrap(text, first, rest);
        assert_eq!(lines.concat(), text);
        assert!(lines[..lines.len() - 1].iter().all(|line| !line.is_empty()));
    }
    assert_eq!(wrap("", 4, 4), [""]);
}

#[test]
fn repeated_denial_reports_only_its_count() {
    let mut batch = Batch::new();
    let first = batch.process(&fs_denial(1, b"/file"));
    assert!(first.iter().any(|line| line.starts_with("DOMAIN ")));
    let again = batch.process(&fs_denial(1, b"/file"));
    assert_eq!(again.len(), 2);
    assert!(again[0].starts_with("DENIAL type=FS domain=10 "));
    assert!(again[0].contains(" count=2 "));
    assert!(again[1].starts_with("STATS "));
}

#[test]
fn every_change_ends_with_one_statistics_line() {
    let mut batch = Batch::new();
    for event in [
        create(1, None),
        create(2, Some(1)),
        fs_denial(3, b"/a b"),
        fs_denial(3, b"/a b"),
    ] {
        let records = batch.process(&event);
        assert!(!records.is_empty());
        assert!(records.last().unwrap().starts_with("STATS domains="));
        assert_eq!(
            records.iter().filter(|line| line.starts_with("STATS")).count(),
            1
        );
        for record in &records[..records.len() - 1] {
            assert!(
                record.starts_with("DOMAIN domain=")
                    || record.starts_with("DROP_RULESET ruleset=")
                    || record.starts_with("DENIAL type=")
            );
        }
    }
}

#[test]
fn denial_target_is_one_token() {
    let mut batch = Batch::new();
    let records = batch.process(&fs_denial(1, b"/a b,c\n:d"));
    let denial = records
        .iter()
        .find(|line| line.starts_with("DENIAL"))
        .unwrap();
    let target = denial
        .split(' ')
        .find(|field| field.starts_with("target="))
        .unwrap();
    assert_eq!(target, "target=/a\\x20b\\x2cc\\x0a\\x3ad");
}

#[test]
fn every_domain_and_ruleset_keeps_a_row() {
    let mut model = ObservationModel::new();
    for event in [create(3, Some(4)), create(4, Some(3)), create(5, None)] {
        model.observe(&event);
    }
    model.observe(&Event::CreateRuleset(CreateRulesetEvent::new(
        KernelTimestamp::from_nanoseconds(9),
        RulesetId::new(7),
        0,
        FilesystemAccess::from_bits(1),
        NetworkAccess::from_bits(0),
        ScopeAccess::from_bits(0),
    )));
    let rows = domain_rows(&model, None);
    for id in [3, 4, 5] {
        assert!(rows
            .iter()
            .any(|row| row.kind == RowKind::Domain(DomainId::new(id))));
    }
    let rows = ruleset_rows(&model, None);
    for id in [1, 7] {
        assert!(rows
            .iter()
            .any(|row| row.kind == RowKind::Ruleset(RulesetId::new(id))));
    }
}

#[test]
fn parent_cycles_are_listed_from_their_lowest_member() {
    let mut model = ObservationModel::new();
    for event in [create(1, Some(2)), create(2, Some(1)), create(3, None)] {
        model.observe(&event);
    }
    assert_eq!(
        model.domain_tree(),
        [
            (DomainId::new(3), vec![true]),
            (DomainId::new(1), vec![true]),
            (DomainId::new(2), vec![true, true]),
        ]
    );
}

#[test]
fn viewport_follows_the_selection_until_scrolled_by_hand() {
    let mut app = App::new();
    for (scroll, selected, expected) in [(0, 9, 7), (5, 2, 2), (4, 5, 4), (50, 11, 9)] {
        app.scroll = scroll;
        app.follow_selection = true;
        app.adjust_viewport(12, 3, Some(selected));
        assert_eq!(app.scroll, expected);
        assert!(app.scroll <= selected && selected < app.scroll + 3);
    }
    app.scroll_to(4);
    app.adjust_viewport(12, 3, Some(11));
    assert_eq!(app.scroll, 4);
    assert!(!app.follow_selection);
}

#[test]
fn aggregation_keeps_its_capacity_and_never_shrinks() {
    let mut aggregator = DenialAggregator::with_capacity(2).unwrap();
    let mut previous = 0;
    for (seconds, inode) in [(1, 1), (2, 2), (3, 1), (4, 3), (5, 4)] {
        let event = Event::DenyAccessFs(DenyAccessFsEvent::new(
            KernelTimestamp::from_nanoseconds(seconds),
            DenialContext::new(
                HierarchySnapshot::new(DomainId::new(1), None, 10, captured(b"c")),
                seconds,
                true,
                true,
            ),
            FilesystemAccess::from_bits(4),
            1,
            inode,
            captured(b"/p"),
        ));
        let entry = aggregator.observe_entry(&event).unwrap();
        assert_eq!(entry.latest_event(), &event);
        assert!(entry.occurrence_count() >= 1);
        assert!(aggregator.len() >= previous);
        assert!(aggregator.len() <= aggregator.capacity());
        assert_eq!(aggregator.capacity(), 2);
        previous = aggregator.len();
    }
    assert_eq!(aggregator.len(), 2);
}
