use landlock_observability::event::{
    AddRuleFsEvent, AddRuleNetEvent, CapturedString, CreateDomainEvent, CreateRulesetEvent,
    DenialContext, DenyAccessFsEvent, DenyAccessNetEvent, DomainId, EnforceDomainEvent, Event,
    FilesystemAccess, FreeDomainEvent, HierarchySnapshot, KernelTimestamp, NetworkAccess,
    RulesetId, ScopeAccess,
};
use landlock_observability::lltop::detail::{detail_lines, DetailLine};
use landlock_observability::lltop::input::{
    handle_input, keep_draining, recoverable_collector_error, MAX_READY_EVENTS_PER_CYCLE, CollectorReceiveErrorKind, Input, Key,
    MouseAction, Outcome,
};
use landlock_observability::lltop::model::ObservationModel;
use landlock_observability::lltop::panes::{lay_out_list, stats_lines, status_line, wrap_rows};
use landlock_observability::lltop::rows::{denial_rows, domain_rows, target, DisplayRow};
use landlock_observability::lltop::view::{
    click_row, clicked_tab, denial_row_text, lifecycle, recency, visibility, App, Area, RowKind,
    RowStyle, Tab, Tone,
};
use landlock_observability::state::LifecycleState;
use ratatui::text::Line;

const AUDIT_VISIBLE_ICON: &str = "🔔";
const TRACE_ONLY_ICON: &str = "🔕";

fn denial(domain: u64, count: u64, timestamp: u64, inode: u64) -> Event {
    Event::DenyAccessFs(DenyAccessFsEvent::new(
        KernelTimestamp::from_nanoseconds(timestamp),
        DenialContext::new(
            HierarchySnapshot::new(
                DomainId::new(domain),
                None,
                1,
                CapturedString::new(b"x".to_vec(), false).unwrap(),
            ),
            count,
            true,
            count & 1 == 0,
        ),
        FilesystemAccess::from_bits(4),
        1,
        inode,
        CapturedString::new(format!("/p/{inode}").into_bytes(), false).unwrap(),
    ))
}

fn joined(lines: &[DetailLine]) -> Vec<String> {
    lines
        .iter()
        .map(|line| format!("{}{}", line.label, line.text))
        .collect()
}

#[test]
fn lifecycle_labels_cover_the_closed_statuses() {
    assert_eq!(lifecycle(LifecycleState::Unknown), "partial");
    assert_eq!(lifecycle(LifecycleState::Allocated), "allocated");
    assert_eq!(lifecycle(LifecycleState::Deallocated), "deallocated");
}

#[test]
fn missing_no_new_privs_has_precise_status_and_detail_warning() {
    let mut model = ObservationModel::new();
    let id = DomainId::new(7);
    model.observe(&Event::EnforceDomain(EnforceDomainEvent::new(
        KernelTimestamp::from_nanoseconds(1),
        id,
        10,
        true,
        true,
        false,
    )));

    let rows = domain_rows(&model, None);
    assert!(rows[0]
        .text
        .contains("WARNING: missing no_new_privs means privilege gain is possible"));
    let mut app = App::new();
    assert!(status_line(&app, &model)
        .contains("WARNING: missing no_new_privs means privilege gain is possible"));
    app.selected = Some(RowKind::Domain(id));
    let detail = joined(&detail_lines(&app, &model, 120)).concat();
    assert!(detail.contains("WARNING: missing no_new_privs means privilege gain is possible"));
    assert!(!detail.contains("capability"));
    assert!(!detail.contains("escape"));

    model.observe(&Event::FreeDomain(FreeDomainEvent::new(
        KernelTimestamp::from_nanoseconds(2),
        id,
        0,
    )));
    assert!(!domain_rows(&model, None)[0].text.contains("WARNING"));
    assert!(!status_line(&app, &model).contains("missing no_new_privs means"));
    let detail = joined(&detail_lines(&app, &model, 120)).concat();
    assert!(detail
        .contains("historical observation: missing no_new_privs; privilege gain was possible"));
    assert!(!detail.contains("WARNING"));
}

#[test]
fn collector_warning_persists_in_status() {
    let model = ObservationModel::new();
    let mut app = App::new();
    app.set_collector_warning("collector output queue is full".to_owned());

    assert!(
        status_line(&app, &model).contains("COLLECTOR WARNING: collector output queue is full")
    );
    app.set_tab(Tab::Denials);
    assert!(
        status_line(&app, &model).contains("COLLECTOR WARNING: collector output queue is full")
    );
}

#[test]
fn closing_detail_retains_semantic_selection() {
    let mut app = App::new();
    app.selected = Some(RowKind::Domain(DomainId::new(7)));
    app.detail = true;

    app.close_detail();

    assert!(!app.detail);
    assert_eq!(app.selected, Some(RowKind::Domain(DomainId::new(7))));
}

#[test]
fn denial_details_keep_access_family_prefix() {
    let events = [
        denial(1, 1, 1, 1),
        Event::DenyAccessNet(DenyAccessNetEvent::new(
            KernelTimestamp::from_nanoseconds(1),
            DenialContext::new(
                HierarchySnapshot::new(
                    DomainId::new(1),
                    None,
                    1,
                    CapturedString::new(b"x".to_vec(), false).unwrap(),
                ),
                1,
                true,
                false,
            ),
            NetworkAccess::from_bits(1 << 1),
            0,
            443,
        )),
    ];

    for (event, expected) in events
        .into_iter()
        .zip(["Blocked: FS: read_file", "Blocked: Net: connect_tcp"])
    {
        let mut model = ObservationModel::new();
        model.observe(&event);
        let mut app = App::new();
        app.selected = denial_rows(&model, None)
            .into_iter()
            .find_map(|row| match row.kind {
                RowKind::Denial(_) => Some(row.kind),
                _ => None,
            });

        let blocked = joined(&detail_lines(&app, &model, 80))
            .into_iter()
            .find(|line| line.starts_with("Blocked: "))
            .unwrap();

        assert_eq!(blocked, expected);
    }
}

#[test]
fn ruleset_details_use_one_access_family_prefix() {
    let id = RulesetId::new(7);
    let mut model = ObservationModel::new();
    for event in [
        Event::CreateRuleset(CreateRulesetEvent::new(
            KernelTimestamp::from_nanoseconds(1),
            id,
            0,
            FilesystemAccess::from_bits(1 << 2),
            NetworkAccess::from_bits(1 << 1),
            ScopeAccess::from_bits(1 << 1),
        )),
        Event::AddRuleFs(AddRuleFsEvent::new(
            KernelTimestamp::from_nanoseconds(2),
            id,
            1,
            FilesystemAccess::from_bits(1 << 1),
            1,
            2,
            CapturedString::new(b"/tmp/file".to_vec(), false).unwrap(),
        )),
        Event::AddRuleNet(AddRuleNetEvent::new(
            KernelTimestamp::from_nanoseconds(3),
            id,
            2,
            NetworkAccess::from_bits(1 << 1),
            443,
        )),
    ] {
        model.observe(&event);
    }
    let mut app = App::new();
    app.selected = Some(RowKind::Ruleset(id));

    let lines = joined(&detail_lines(&app, &model, 80));

    assert_eq!(
        lines,
        [
            "Ruleset: 7.2",
            "Status: allocated",
            "Handled FS: read_file",
            "Handled Net: connect_tcp",
            "Scoped: signal",
            "FS: write_file",
            "    /tmp/file",
            "Net: connect_tcp",
            "    port 443",
        ]
    );
}

#[test]
fn denial_groups_follow_impact_policy_and_headings_have_no_counts() {
    let mut model = ObservationModel::new();
    for event in [
        denial(1, 1, 1, 1),
        denial(2, 1, 2, 2),
        denial(2, 2, 3, 2),
        denial(2, 3, 4, 3),
    ] {
        model.observe(&event);
    }
    let rows = denial_rows(&model, None);
    assert!(rows[0].text.starts_with("Domain 2 ("));
    assert!(!rows[0].text.contains("denials="));
    assert!(rows.iter().any(|row| row.text.contains(AUDIT_VISIBLE_ICON)));
    assert!(rows.iter().any(|row| row.text.contains(TRACE_ONLY_ICON)));
}

#[test]
fn visibility_column_is_two_cells_and_target_continuations_align() {
    let (audit_marker, _) = visibility(true);
    let (trace_marker, _) = visibility(false);
    assert_eq!(Line::from(audit_marker).width(), 2);
    assert_eq!(Line::from(trace_marker).width(), 2);

    let mut model = ObservationModel::new();
    model.observe(&denial(1, 1, 1, 1));
    model.observe(&denial(1, 2, 2, 2));
    let rows = denial_rows(&model, None);
    let trace = rows.iter().find(|row| row.text.contains("/p/1")).unwrap();
    let audit = rows.iter().find(|row| row.text.contains("/p/2")).unwrap();
    let trace_prefix = trace.text.split_once("/p/1").unwrap().0;
    let audit_prefix = audit.text.split_once("/p/2").unwrap().0;

    assert_eq!(Line::from(trace_prefix).width(), 15);
    assert_eq!(Line::from(audit_prefix).width(), 15);
    assert_eq!(trace.continuation_indent, Some(15));
    assert_eq!(audit.continuation_indent, Some(15));

    let (wide_count, wide_indent) = denial_row_text(1_000_000, TRACE_ONLY_ICON, "/wide/count");
    let wide_prefix = wide_count.split_once("/wide/count").unwrap().0;
    assert_eq!(Line::from(wide_prefix).width(), wide_indent);
    assert_eq!(wide_indent, 16);

    let mut app = App::new();
    app.selected = Some(trace.kind.clone());
    let detail = joined(&detail_lines(&app, &model, 80))
        .into_iter()
        .find(|line| line.starts_with("Logged: "))
        .unwrap();
    assert_eq!(detail, "Logged: 🔕 trace-only");
}

#[test]
fn trace_only_rows_preserve_every_recency_style() {
    let mut model = ObservationModel::new();
    for event in [
        denial(1, 1, 31_000_000_000, 1),
        denial(1, 3, 29_000_000_000, 2),
        denial(1, 5, 5_000_000_000, 3),
        denial(1, 7, 0, 4),
    ] {
        model.observe(&event);
    }

    let rows = denial_rows(&model, None);
    for (inode, expected) in [
        (1, Tone::Hot),
        (2, Tone::Recent),
        (3, Tone::Cooling),
        (4, Tone::Cold),
    ] {
        let row = rows
            .iter()
            .find(|row| {
                let (marker, _) = visibility(false);
                row.text.contains(&format!("{marker}  /p/{inode}"))
            })
            .unwrap();
        assert_eq!(
            row.style,
            RowStyle {
                tone: expected,
                related: false,
                selected: false
            }
        );
    }
}

#[test]
fn selection_survives_row_reordering_by_key() {
    let mut model = ObservationModel::new();
    model.observe(&denial(1, 1, 1, 1));
    model.observe(&denial(1, 2, 2, 2));
    let rows = denial_rows(&model, None);
    let selected = rows
        .iter()
        .find_map(|row| match &row.kind {
            RowKind::Denial(key) if target(model.denial(key).unwrap()).ends_with("/1") => {
                Some(row.kind.clone())
            }
            _ => None,
        })
        .unwrap();
    model.observe(&denial(1, 3, 3, 1));
    let reordered = denial_rows(&model, Some(&selected));
    assert!(reordered.iter().any(|row| row.kind == selected));
}

#[test]
fn keyboard_selection_resumes_following_after_manual_scroll() {
    let domains = (1..=5)
        .map(|id| RowKind::Domain(DomainId::new(id)))
        .collect::<Vec<_>>();
    let mut app = App::new();
    app.hit.rows = vec![
        domains[0].clone(),
        domains[0].clone(),
        domains[1].clone(),
        domains[2].clone(),
        domains[2].clone(),
        domains[3].clone(),
        domains[4].clone(),
    ];
    app.selected = Some(domains[4].clone());
    app.scroll_to(2);

    app.adjust_viewport(app.hit.rows.len(), 3, Some(6));
    assert_eq!(app.scroll, 2);

    app.move_selection(-1);
    assert_eq!(app.selected, Some(domains[3].clone()));
    app.adjust_viewport(app.hit.rows.len(), 3, Some(5));
    assert_eq!(app.scroll, 3);
}

#[test]
fn mouse_tab_mapping_matches_rendered_titles() {
    let area = Area::new(0, 0, 80, 3);
    assert_eq!(clicked_tab(area, 2, 1), Some(Tab::Domains));
    assert_eq!(clicked_tab(area, 16, 1), Some(Tab::Denials));
    assert_eq!(clicked_tab(area, 1, 0), None);
}

#[test]
fn only_nonterminal_collector_errors_are_recoverable() {
    assert!(recoverable_collector_error(Some(
        CollectorReceiveErrorKind::OutputQueueFull
    )));
    assert!(recoverable_collector_error(Some(
        CollectorReceiveErrorKind::MalformedSample
    )));
    assert!(!recoverable_collector_error(Some(
        CollectorReceiveErrorKind::PollFailure
    )));
    assert!(!recoverable_collector_error(Some(
        CollectorReceiveErrorKind::WorkerStop
    )));
    assert!(!recoverable_collector_error(None));
}

#[test]
fn row_click_uses_scroll_and_ignores_headings() {
    let mut app = App::new();
    app.hit.list = Area::new(5, 5, 20, 10);
    app.hit.header_rows = 1;
    app.hit.rows = vec![RowKind::Heading, RowKind::Domain(DomainId::new(2))];
    app.scroll = 1;
    click_row(&mut app, 6, 6);
    assert_eq!(app.selected, Some(RowKind::Domain(DomainId::new(2))));
    app.selected = None;
    app.detail = false;
    click_row(&mut app, 6, 5);
    assert_eq!(app.selected, None);
    assert!(!app.detail);
    click_row(&mut app, 6, 14);
    assert_eq!(app.selected, None);
}

fn create(id: u64, parent: Option<u64>) -> Event {
    Event::CreateDomain(CreateDomainEvent::new(
        KernelTimestamp::from_nanoseconds(id),
        RulesetId::new(1),
        0,
        DomainId::new(id),
        parent.map(DomainId::new),
        1,
        CapturedString::new(b"x".to_vec(), false).unwrap(),
    ))
}

#[test]
fn tree_retains_ancestor_last_child_metadata() {
    let mut model = ObservationModel::new();
    for event in [
        create(1, None),
        create(2, Some(1)),
        create(3, Some(1)),
        create(4, Some(2)),
    ] {
        model.observe(&event);
    }
    model.observe(&Event::EnforceDomain(EnforceDomainEvent::new(
        KernelTimestamp::from_nanoseconds(5),
        DomainId::new(5),
        1,
        true,
        false,
        false,
    )));
    assert_eq!(model.allocated_domains(), 5);
    assert_eq!(model.allocated_rulesets(), 1);
    assert_eq!(
        model.domain_tree(),
        [
            (DomainId::new(1), vec![false]),
            (DomainId::new(2), vec![false, false]),
            (DomainId::new(4), vec![false, false, true]),
            (DomainId::new(3), vec![false, true]),
            (DomainId::new(5), vec![true]),
        ]
    );
}

#[test]
fn recency_bands_have_exact_boundaries() {
    assert_eq!(recency(999_999_999), Tone::Hot);
    assert_eq!(recency(1_000_000_000), Tone::Recent);
    assert_eq!(recency(5_000_000_000), Tone::Cooling);
    assert_eq!(recency(30_000_000_000), Tone::Cold);
}

#[test]
fn unretained_selection_has_a_single_note() {
    let model = ObservationModel::new();
    let mut app = App::new();
    assert_eq!(joined(&detail_lines(&app, &model, 40)), ["Selection no longer retained"]);
    app.selected = Some(RowKind::Domain(DomainId::new(9)));
    let lines = detail_lines(&app, &model, 40);
    assert_eq!(lines.len(), 1);
    assert_eq!(lines[0].tone, Tone::Unknown);
    assert_eq!(lines[0].text, "Selection no longer retained");
}

#[test]
fn detail_values_wrap_under_their_label() {
    let mut model = ObservationModel::new();
    model.observe(&denial(3, 1, 1, 1));
    let mut app = App::new();
    app.selected = Some(RowKind::Domain(DomainId::new(3)));
    let lines = detail_lines(&app, &model, 30);
    let first = lines
        .iter()
        .position(|line| line.label == "no_new_privs: ")
        .unwrap();
    assert_eq!(lines[first].text, "unknown");
    assert_eq!(lines[first].tone, Tone::Unknown);
    let status = lines.iter().position(|line| line.label == "Status: ").unwrap();
    assert_eq!(lines[status].text, "allocated");

    let mut model = ObservationModel::new();
    model.observe(&Event::EnforceDomain(EnforceDomainEvent::new(
        KernelTimestamp::from_nanoseconds(1),
        DomainId::new(4),
        10,
        true,
        true,
        true,
    )));
    app.selected = Some(RowKind::Domain(DomainId::new(4)));
    let lines = detail_lines(&app, &model, 30);
    let start = lines
        .iter()
        .position(|line| line.label == "no_new_privs: ")
        .unwrap();
    assert_eq!(lines[start].text, "set for all ");
    assert_eq!(lines[start + 1].label, "");
    assert_eq!(lines[start + 1].text, format!("{}latest ", " ".repeat(18)));
    assert_eq!(lines[start + 1].tone, Tone::Observed);
}

#[test]
fn status_and_statistics_count_what_was_observed() {
    let mut model = ObservationModel::new();
    model.observe(&create(1, None));
    model.observe(&denial(1, 1, 20, 1));
    let mut app = App::new();
    assert_eq!(
        status_line(&app, &model),
        " 1 domains (1 allocated) | 1 denials"
    );
    app.paused = true;
    assert_eq!(
        status_line(&app, &model),
        " 1 domains (1 allocated) | 1 denials | PAUSED"
    );
    let stats = joined(&stats_lines(&model));
    assert_eq!(
        stats,
        [
            "Observed denials: 1",
            "  Filesystem: 1",
            "  Network: 0",
            "  Ptrace: 0",
            "  Signal: 0",
            "  Abstract Unix: 0",
            "",
            "Domains: 1 allocated / 1 observed",
            "Rulesets: 1 allocated / 1 observed",
            "Latest event: 20ns",
        ]
    );
}

#[test]
fn list_rows_wrap_and_the_viewport_follows_the_selection() {
    let row = |id: u64, text: &str, indent: Option<usize>| DisplayRow {
        kind: RowKind::Domain(DomainId::new(id)),
        text: text.to_owned(),
        style: RowStyle {
            tone: Tone::Normal,
            related: false,
            selected: false,
        },
        continuation_indent: indent,
    };
    let rows = vec![
        row(1, "  alpha beta gamma", None),
        row(2, "delta", Some(2)),
        row(3, "epsilon zeta eta", Some(2)),
    ];
    let wrapped = wrap_rows(&rows, 12);
    let texts = wrapped.iter().map(|row| row.text.as_str()).collect::<Vec<_>>();
    assert_eq!(
        texts,
        ["  alpha ", "      beta ", "      gamma", "delta", "epsilon ", "  zeta eta"]
    );
    assert_eq!(wrapped[2].kind, RowKind::Domain(DomainId::new(1)));

    let mut app = App::new();
    app.selected = Some(RowKind::Domain(DomainId::new(3)));
    let lines = lay_out_list(&mut app, Area::new(0, 3, 14, 5), &rows);
    assert_eq!(lines.len(), 6);
    assert_eq!(app.scroll, 2);
    assert_eq!(app.hit.rows.len(), 6);
    assert_eq!(app.hit.header_rows, 1);
    assert_eq!(app.hit.list, Area::new(0, 3, 14, 5));
}

#[test]
fn input_switches_tabs_quits_and_scrolls() {
    let model = ObservationModel::new();
    let mut app = App::new();
    assert_eq!(handle_input(&mut app, &model, Input::Key(Key::Char('3'))), Outcome::Continue);
    assert_eq!(app.tab, Tab::Rulesets);
    assert_eq!(handle_input(&mut app, &model, Input::Key(Key::Tab)), Outcome::Continue);
    assert_eq!(app.tab, Tab::Stats);
    assert_eq!(handle_input(&mut app, &model, Input::Key(Key::Tab)), Outcome::Continue);
    assert_eq!(app.tab, Tab::Domains);
    handle_input(&mut app, &model, Input::Key(Key::Char('p')));
    assert!(app.paused);
    handle_input(&mut app, &model, Input::Mouse(MouseAction::ScrollDown, 0, 0));
    assert_eq!(app.scroll, 3);
    assert!(!app.follow_selection);
    handle_input(&mut app, &model, Input::Mouse(MouseAction::ScrollUp, 0, 0));
    handle_input(&mut app, &model, Input::Mouse(MouseAction::ScrollUp, 0, 0));
    assert_eq!(app.scroll, 0);
    app.detail = true;
    assert_eq!(handle_input(&mut app, &model, Input::Key(Key::Esc)), Outcome::Continue);
    assert!(!app.detail);
    assert_eq!(handle_input(&mut app, &model, Input::Key(Key::Esc)), Outcome::Quit);
    assert_eq!(handle_input(&mut app, &model, Input::Key(Key::Char('q'))), Outcome::Quit);
}

#[test]
fn mouse_drags_the_scrollbar_and_clicks_tabs() {
    let model = ObservationModel::new();
    let mut app = App::new();
    app.hit.tabs = Area::new(0, 0, 80, 3);
    app.hit.list = Area::new(0, 3, 20, 7);
    app.hit.header_rows = 1;
    app.hit.rows = (1..=25).map(|id| RowKind::Domain(DomainId::new(id))).collect();
    handle_input(&mut app, &model, Input::Mouse(MouseAction::LeftDown, 19, 8));
    assert!(app.dragging_scrollbar);
    assert_eq!(app.scroll, 20);
    handle_input(&mut app, &model, Input::Mouse(MouseAction::LeftDrag, 19, 4));
    assert_eq!(app.scroll, 0);
    handle_input(&mut app, &model, Input::Mouse(MouseAction::LeftUp, 19, 8));
    assert!(!app.dragging_scrollbar);
    handle_input(&mut app, &model, Input::Mouse(MouseAction::LeftDrag, 19, 8));
    assert_eq!(app.scroll, 0);
    handle_input(&mut app, &model, Input::Mouse(MouseAction::LeftDown, 16, 1));
    assert_eq!(app.tab, Tab::Denials);
}

#[test]
fn detail_pane_is_shown_beside_lists_only() {
    let mut app = App::new();
    assert!(!landlock_observability::lltop::panes::detail_shown(&app));
    app.detail = true;
    assert!(landlock_observability::lltop::panes::detail_shown(&app));
    app.tab = Tab::Stats;
    assert!(!landlock_observability::lltop::panes::detail_shown(&app));
}

#[test]
fn draining_stops_at_the_rendering_bound() {
    assert!(keep_draining(0));
    assert!(keep_draining(MAX_READY_EVENTS_PER_CYCLE - 1));
    assert!(!keep_draining(MAX_READY_EVENTS_PER_CYCLE));
}
