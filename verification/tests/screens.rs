use vectorcom::app::{App, ChatLine, LineKind};
use vectorcom::client_view;
use vectorcom::dashboard::{self, Prompt, PromptOutcome};
use vectorcom::keys::Key;
use vectorcom::state::ServerState;
use vectorcom::view::{
    bold, fg, hash_name, italic, rgb, truncate, Area, Color, Limit, Line, Part, Widget,
};

fn area(x: u16, y: u16, width: u16, height: u16) -> Area {
    Area { x, y, width, height }
}

fn text(line: &Line) -> String {
    line.spans.iter().map(|s| s.text.clone()).collect()
}

fn lines(part: &Part) -> Vec<String> {
    match &part.widget {
        Widget::Text { lines, .. } => lines.iter().map(text).collect(),
        Widget::List { items, .. } => items.iter().map(text).collect(),
        Widget::Table { rows, .. } => {
            rows.iter().map(|r| format!("{}|{}", r.0.text, r.1.text)).collect()
        }
        Widget::Blank => Vec::new(),
    }
}

fn app(n: i64) -> App {
    let mut a = App::new("me".into(), "host:1".into());
    for i in 0..n {
        a.push(ChatLine::system_at(format!("line {}", i), i));
    }
    a
}

#[test]
fn names_have_colours() {
    assert_eq!(hash_name(""), 5381);
    assert_eq!(hash_name("a"), 5381 * 33 + 97);
    assert_eq!(hash_name("alice"), 253185475);
    assert_eq!(hash_name("a very long name é"), 3086199273);
    assert_eq!(client_view::user_color("a"), Color::Rgb(200, 140, 200));
    assert_eq!(client_view::user_color("alice"), Color::Rgb(220, 180, 120));
    assert_eq!(dashboard::user_color("a"), Color::Rgb(220, 180, 120));
    assert_eq!(dashboard::user_color("alice"), Color::Rgb(120, 180, 220));
    assert_eq!(rgb(client_view::ACCENT), Color::Rgb(135, 206, 250));
    assert_eq!(rgb(client_view::MUTED), Color::Rgb(150, 150, 150));
    assert_eq!(rgb(dashboard::MUTED), Color::Rgb(140, 140, 140));
}

#[test]
fn long_names_are_cut() {
    assert_eq!(truncate("short", 10), "short");
    assert_eq!(truncate("exactly_10", 10), "exactly_10");
    assert_eq!(truncate("éééééééééééé", 10), "ééééééééé…");
    assert_eq!(truncate("ab", 0), "…");
}

#[test]
fn windows_show_the_newest_lines() {
    assert_eq!(client_view::history_window(100, 10, 0), (90, 100));
    assert_eq!(client_view::history_window(100, 10, 5), (85, 95));
    assert_eq!(client_view::history_window(100, 10, 1000), (0, 10));
    assert_eq!(client_view::history_window(3, 10, 2), (0, 3));
    assert_eq!(client_view::history_window(0, 10, 0), (0, 0));
}

#[test]
fn lines_of_the_history_have_their_look() {
    let chat = ChatLine { kind: LineKind::Chat { from: "me".into() }, text: "hi".into(), ts: 0 };
    let l = client_view::render_chat_line_at(&chat, "12:34", "me");
    assert_eq!(text(&l), " 12:34 me          hi");
    assert_eq!(l.spans[1].style, bold(rgb(client_view::ACCENT)));
    let l = client_view::render_chat_line_at(&chat, "12:34", "you");
    assert_eq!(l.spans[1].style, bold(client_view::user_color("me")));
    let pm = ChatLine {
        kind: LineKind::Pm { from: "bartholomew".into(), outgoing: true },
        text: "hi".into(),
        ts: 0,
    };
    let l = client_view::render_chat_line_at(&pm, "12:34", "me");
    assert_eq!(text(&l), " 12:34 → barthol…  hi");
    let pm = ChatLine { kind: LineKind::Pm { from: "bob".into(), outgoing: false }, text: "hi".into(), ts: 0 };
    assert_eq!(text(&client_view::render_chat_line_at(&pm, "12:34", "me")), " 12:34 ← bob       hi");
    let l = client_view::render_chat_line_at(&ChatLine::system_at("note".into(), 0), "12:34", "me");
    assert_eq!(text(&l), " 12:34 ·           note");
    assert_eq!(l.spans[3].style, italic(rgb(client_view::MUTED)));
    let l = client_view::render_chat_line_at(&ChatLine::error_at("bad".into(), 0), "12:34", "me");
    assert_eq!(text(&l), " 12:34 !           bad");
    assert_eq!(l.spans[1].style, bold(Color::Red));
    assert_eq!(client_view::render_chat_line(&chat, "me").spans[0].text.len(), 7);
}

#[test]
fn the_client_screen_is_drawn() {
    let mut a = app(30);
    a.input.insert('→');
    a.input.insert('漢');
    let p = client_view::draw(&a, area(0, 0, 80, 24)).unwrap();
    assert_eq!(p.parts.len(), 6);
    assert_eq!(lines(&p.parts[0]), vec![" ◆ Vectorcom  ·  #general  ·  1 online  ·  me"]);
    assert_eq!(lines(&p.parts[1]), vec!["◐ connecting  host:1 "]);
    assert!(matches!(p.parts[1].widget, Widget::Text { right: true, .. }));
    assert_eq!(p.parts[0].area, area(0, 0, 48, 1));
    assert_eq!(p.parts[1].area, area(48, 0, 32, 1));
    assert_eq!(lines(&p.parts[2]), vec!["─".repeat(80)]);
    assert_eq!(p.parts[2].area, area(0, 1, 80, 1));
    assert_eq!(p.parts[3].area, area(0, 2, 80, 18));
    let shown = lines(&p.parts[3]);
    assert_eq!(shown.len(), 18);
    assert!(shown[0].ends_with("line 12"));
    assert!(shown[17].ends_with("line 29"));
    assert_eq!(lines(&p.parts[4]), vec![" › →漢"]);
    assert_eq!(
        lines(&p.parts[5]),
        vec!["  enter send   / commands   ↑↓ scroll   ctrl-l clear   esc quit"]
    );
    assert_eq!(p.cursor, Some((7, 21)));
}

#[test]
fn scrolling_shows_a_badge() {
    let mut a = app(30);
    a.page_up();
    let p = client_view::draw(&a, area(0, 0, 80, 24)).unwrap();
    assert_eq!(p.parts.len(), 7);
    assert_eq!(lines(&p.parts[4]), vec![" ↑ 10 "]);
    assert_eq!(p.parts[4].area, area(73, 2, 6, 1));
    assert!(lines(&p.parts[3])[0].ends_with("line 2"));
    assert_eq!(lines(&p.parts[5]), vec![" › Type a message or /help for commands"]);
    let before = lines(&p.parts[3]);
    a.push(ChatLine::system_at("later".into(), 0));
    let p = client_view::draw(&a, area(0, 0, 80, 24)).unwrap();
    assert_eq!(lines(&p.parts[3]), before);
    let narrow = client_view::draw(&a, area(0, 0, 8, 24)).unwrap();
    assert_eq!(narrow.parts.len(), 6);
    assert_eq!(narrow.cursor, Some((4, 21)));
    assert_eq!(client_view::draw(&a, area(0, 0, 6, 24)).unwrap().cursor, None);
}

#[test]
fn places_out_of_range_give_no_screen() {
    let box_area = area(u16::MAX - 3, 0, 3, 3);
    assert!(!client_view::can_place_cursor(box_area, 0));
    assert!(client_view::can_place_cursor(area(0, 0, 80, 3), 70_000));
    assert_eq!(client_view::place_cursor(area(0, 0, 80, 3), 65_536 + 2), Some((6, 1)));
    assert!(client_view::draw(&app(1), area(u16::MAX - 3, 0, 3, 24)).is_none());
}

#[test]
fn every_screen_in_range_is_drawn() {
    let snap = busy().snapshot();
    for (w, h) in [(0, 0), (1, 1), (3, 2), (20, 5), (80, 24), (300, 100)] {
        for (x, y) in [(0, 0), (7, 9), (1000, 1000)] {
            let whole = area(x, y, w, h);
            let inside = |a: Area| {
                a.x >= x && a.x + a.width <= x + w && a.y >= y && a.y <= y + h
            };
            let p = client_view::draw(&app(5), whole).unwrap();
            assert_eq!(p.parts.len(), 6);
            assert!(p.parts.iter().all(|part| inside(part.area) || part.area.y == y + 1));
            let p = dashboard::draw(&snap, "x", &Prompt::new(), whole).unwrap();
            assert_eq!(p.parts.len(), 6);
            assert!(p.parts.iter().all(|part| inside(part.area)));
        }
    }
}

#[test]
fn the_lines_shown_have_their_times() {
    let mut a = app(30);
    assert_eq!(client_view::history_times(&a, 3), vec![27, 28, 29]);
    a.scroll_up();
    assert_eq!(client_view::history_times(&a, 3), vec![26, 27, 28]);
    let snap = busy().snapshot();
    assert_eq!(dashboard::log_times(&snap, 4), vec![38, 39]);
    assert!(dashboard::log_times(&snap, 1).is_empty());
}

#[test]
fn screens_are_divided_by_their_limits() {
    assert_eq!(
        client_view::screen_limits(),
        vec![Limit::Length(2), Limit::Min(3), Limit::Length(3), Limit::Length(1)]
    );
    assert_eq!(
        client_view::header_limits(),
        vec![Limit::Percentage(60), Limit::Percentage(40)]
    );
    assert_eq!(
        dashboard::screen_limits(),
        vec![Limit::Length(3), Limit::Min(5), Limit::Length(3), Limit::Length(1)]
    );
    assert_eq!(dashboard::body_limits(), vec![Limit::Percentage(40), Limit::Percentage(60)]);
    assert_eq!(dashboard::left_limits(), vec![Limit::Percentage(45), Limit::Percentage(55)]);
}

#[test]
fn commands_are_suggested() {
    let names = |s: &str| -> Vec<&'static str> {
        dashboard::suggestions(s).iter().map(|c| c.name).collect()
    };
    assert_eq!(names("/"), vec!["kick", "say", "block", "unblock", "slowmode"]);
    assert_eq!(names("s"), vec!["say", "slowmode"]);
    assert_eq!(names("/un"), vec!["unblock"]);
    assert!(names("").is_empty());
    assert!(names("say ").is_empty());
    assert!(names("x").is_empty());
}

#[test]
fn the_prompt_takes_keys() {
    let mut p = Prompt::new();
    assert!(matches!(p.handle_key(Key::Char('s'), false), PromptOutcome::Stay));
    p.handle_key(Key::Up, false);
    assert_eq!(p.suggest_idx, 1);
    p.handle_key(Key::Down, false);
    assert_eq!(p.suggest_idx, 0);
    p.handle_key(Key::Down, false);
    p.handle_key(Key::Tab, false);
    assert_eq!((p.input.as_str(), p.suggest_idx), ("slowmode ", 0));
    p.handle_key(Key::Backspace, false);
    assert_eq!(p.input, "slowmode");
    p.handle_key(Key::Char('x'), true);
    assert_eq!(p.input, "slowmode");
    assert!(matches!(p.handle_key(Key::Esc, false), PromptOutcome::Stay));
    assert_eq!(p.input, "");
    for c in " //say  hi ".chars() {
        p.handle_key(Key::Char(c), false);
    }
    match p.handle_key(Key::Enter, false) {
        PromptOutcome::Run(cmd) => assert_eq!(cmd, "say  hi"),
        other => panic!("{:?}", other),
    }
    p.handle_key(Key::Char('/'), false);
    assert!(matches!(p.handle_key(Key::Enter, false), PromptOutcome::Stay));
    p.handle_key(Key::Backspace, false);
    assert!(matches!(p.handle_key(Key::Esc, false), PromptOutcome::Quit));
    assert!(matches!(p.handle_key(Key::Char('c'), true), PromptOutcome::Quit));
}

fn busy() -> ServerState {
    let mut s = ServerState::new();
    let a = s.register("alice".into()).unwrap();
    s.register("bob".into()).unwrap();
    s.handle_join(a, "attic".into());
    for i in 0..40 {
        s.log_at(format!("event {}", i), i);
    }
    s.set_uptime(61);
    s
}

#[test]
fn the_dashboard_is_drawn() {
    let snap = busy().snapshot();
    let p = dashboard::draw(&snap, "0.0.0.0:1", &Prompt::new(), area(0, 0, 100, 30)).unwrap();
    assert_eq!(p.parts.len(), 6);
    assert_eq!(
        lines(&p.parts[0]),
        vec![
            " ◆ Vectorcom  server    0.0.0.0:1",
            "uptime 00:01:01   conn 2   msg 0   online 2",
        ]
    );
    assert_eq!(
        lines(&p.parts[1]),
        vec![" #attic           1 online", " #general         1 online"]
    );
    assert_eq!(lines(&p.parts[2]), vec![" alice|#attic", " bob|#general"]);
    let log = lines(&p.parts[3]);
    assert_eq!(log.len(), p.parts[3].area.height as usize - 2);
    assert!(log.last().unwrap().ends_with(" event 39"));
    assert_eq!(
        lines(&p.parts[4]),
        vec![" › type / for commands — kick · say · block · unblock · slowmode"]
    );
    assert_eq!(
        lines(&p.parts[5]),
        vec!["  enter run admin command    esc clear / quit    ctrl-c quit"]
    );
    assert_eq!(p.parts[0].area, area(0, 0, 100, 3));
    assert_eq!(p.parts[3].area.x, 40);
    assert_eq!(p.cursor, Some((4, p.parts[4].area.y + 1)));
}

#[test]
fn suggestions_stand_above_the_prompt() {
    let snap = busy().snapshot();
    let mut prompt = Prompt::new();
    prompt.handle_key(Key::Char('s'), false);
    prompt.handle_key(Key::Down, false);
    let p = dashboard::draw(&snap, "x", &prompt, area(0, 0, 100, 30)).unwrap();
    assert_eq!(p.parts.len(), 8);
    let input = p.parts[4].area;
    assert!(matches!(p.parts[6].widget, Widget::Blank));
    assert_eq!(p.parts[6].area, p.parts[7].area);
    assert_eq!(p.parts[7].area, area(2, input.y - 4, 22 + 29 + 7, 4));
    assert_eq!(
        lines(&p.parts[7]),
        vec![
            " say <message>           broadcast to all rooms ",
            " slowmode <room> <secs>  set per-room message cooldown ",
        ]
    );
    match &p.parts[7].widget {
        Widget::Text { lines, border, .. } => {
            assert_eq!(lines[0].spans[0].style, fg(Color::White));
            assert_eq!(lines[1].spans[0].style.bg, Some(rgb(dashboard::ACCENT)));
            let b = border.as_ref().unwrap();
            assert_eq!(b.title.as_ref().unwrap().text, " admin commands ");
            assert_eq!(b.foot.as_ref().unwrap().text, " ↑↓ select · tab complete ");
        }
        _ => panic!("no lines"),
    }
    assert!(dashboard::draw_command_dropdown(area(0, 2, 80, 3), &prompt).is_empty());
}
