use clim::{Clim, MenuOption, MenuState, Turn};
use std::cell::RefCell;
use std::rc::Rc;

type Action = Rc<dyn Fn()>;

fn logging(log: &Rc<RefCell<Vec<String>>>, text: &str) -> Action {
    let log = Rc::clone(log);
    let text = text.to_string();
    Rc::new(move || log.borrow_mut().push(text.clone()))
}

/// Plays the menu loop over scripted reads (`Err` is a failed read), writing
/// every drawn line and every action's output to `log`. Stops after
/// `max_cycles` cycles; returns `Some(Ok)` when an exit entry was chosen,
/// `Some(Err)` on a failed read, `None` when the cycles or reads ran out.
fn play(
    clim: &Clim<Action>,
    reads: &[Result<&str, ()>],
    log: &Rc<RefCell<Vec<String>>>,
    max_cycles: usize,
) -> Option<Result<(), ()>> {
    let mut state = MenuState::Running;
    let mut next = 0;
    for _ in 0..max_cycles {
        for line in clim.menu_lines() {
            log.borrow_mut().push(line);
        }
        if next >= reads.len() {
            return None;
        }
        let line = match reads[next] {
            Ok(l) => l,
            Err(()) => return Some(Err(())),
        };
        next += 1;
        let turn = clim.advance(state, line);
        if let Some(i) = turn.invoke {
            (clim.menu_options()[i].on_select())();
        }
        state = turn.state;
        if state == MenuState::Stopped {
            return Some(Ok(()));
        }
    }
    None
}

fn two_entry_menu(log: &Rc<RefCell<Vec<String>>>) -> Clim<Action> {
    Clim::new(
        vec![
            MenuOption::new("1".to_string(), "say hi", logging(log, "hi"), false),
            MenuOption::new("2".to_string(), "quit", logging(log, "bye"), true),
        ],
        "Welcome".to_string(),
    )
}

fn strings(v: &[&str]) -> Vec<String> {
    v.iter().map(|s| s.to_string()).collect()
}

#[test]
fn new_menu_option() {
    let menu_option = MenuOption::new(
        "1".to_string(),
        "foo bar baz",
        Rc::new(|| {
            println!("yeeee");
        }) as Action,
        false,
    );

    let clim = Clim::new(vec![(menu_option)], "Welcome To Clim".to_owned());

    (clim.menu_options().get(0).unwrap().on_select())();
}

#[test]
fn option_fields_are_kept() {
    let o = MenuOption::new("q".to_string(), "leave", 7u8, true);
    assert_eq!(o.key(), "q");
    assert_eq!(o.description(), "leave");
    assert_eq!(*o.on_select(), 7u8);
    assert!(o.is_exit());
}

#[test]
fn new_keeps_order_and_contents() {
    let opts = vec![
        MenuOption::new("b".to_string(), "second", 2u32, false),
        MenuOption::new("a".to_string(), "first", 1u32, true),
        MenuOption::new("c".to_string(), "third", 3u32, false),
    ];
    let clim = Clim::new(opts, "T".to_string());
    let got: Vec<(String, String, u32, bool)> = clim
        .menu_options()
        .iter()
        .map(|o| (o.key().clone(), o.description().clone(), *o.on_select(), o.is_exit()))
        .collect();
    assert_eq!(
        got,
        vec![
            ("b".to_string(), "second".to_string(), 2, false),
            ("a".to_string(), "first".to_string(), 1, true),
            ("c".to_string(), "third".to_string(), 3, false),
        ]
    );
    assert_eq!(clim.title, "T");
}

#[test]
fn menu_lines_are_title_then_entries() {
    let log = Rc::new(RefCell::new(Vec::new()));
    let clim = two_entry_menu(&log);
    assert_eq!(clim.menu_lines(), strings(&["Welcome", "1 say hi", "2 quit"]));
}

#[test]
fn menu_lines_of_empty_menu() {
    let clim: Clim<u8> = Clim::new(vec![], "Only".to_string());
    assert_eq!(clim.menu_lines(), strings(&["Only"]));
}

#[test]
fn find_option_is_exact() {
    let log = Rc::new(RefCell::new(Vec::new()));
    let clim = two_entry_menu(&log);
    assert_eq!(clim.find_option("1"), Some(0));
    assert_eq!(clim.find_option("2"), Some(1));
    assert_eq!(clim.find_option("3"), None);
    assert_eq!(clim.find_option("1 "), None);
    assert_eq!(clim.find_option(""), None);
}

#[test]
fn find_option_is_case_sensitive() {
    let clim = Clim::new(vec![MenuOption::new("Q".to_string(), "quit", (), true)], String::new());
    assert_eq!(clim.find_option("q"), None);
    assert_eq!(clim.find_option("Q"), Some(0));
}

#[test]
fn advance_decides_each_turn() {
    let log = Rc::new(RefCell::new(Vec::new()));
    let clim = two_entry_menu(&log);
    assert_eq!(
        clim.advance(MenuState::Running, "x"),
        Turn { state: MenuState::Running, invoke: None }
    );
    assert_eq!(
        clim.advance(MenuState::Running, "1"),
        Turn { state: MenuState::Running, invoke: Some(0) }
    );
    assert_eq!(
        clim.advance(MenuState::Running, "2"),
        Turn { state: MenuState::Stopped, invoke: Some(1) }
    );
    assert_eq!(
        clim.advance(MenuState::Stopped, "1"),
        Turn { state: MenuState::Stopped, invoke: None }
    );
    assert!(log.borrow().is_empty());
}

#[test]
fn unmatched_then_two_matched() {
    let log = Rc::new(RefCell::new(Vec::new()));
    let clim = two_entry_menu(&log);
    let out = play(&clim, &[Ok("zz"), Ok("1"), Ok("2"), Ok("1")], &log, 10);
    assert_eq!(out, Some(Ok(())));
    let actions: Vec<String> = log
        .borrow()
        .iter()
        .filter(|l| *l == "hi" || *l == "bye")
        .cloned()
        .collect();
    assert_eq!(actions, strings(&["hi", "bye"]));
    assert_eq!(log.borrow().iter().filter(|l| *l == "Welcome").count(), 3);
}

#[test]
fn exit_on_first_line() {
    let log = Rc::new(RefCell::new(Vec::new()));
    let clim = two_entry_menu(&log);
    let out = play(&clim, &[Ok("2")], &log, 10);
    assert_eq!(out, Some(Ok(())));
    assert_eq!(*log.borrow(), strings(&["Welcome", "1 say hi", "2 quit", "bye"]));
}

#[test]
fn failed_first_read() {
    let log = Rc::new(RefCell::new(Vec::new()));
    let clim = two_entry_menu(&log);
    let out = play(&clim, &[Err(()), Ok("2")], &log, 10);
    assert_eq!(out, Some(Err(())));
    assert_eq!(*log.borrow(), strings(&["Welcome", "1 say hi", "2 quit"]));
}

#[test]
fn equal_keys_first_wins() {
    let log = Rc::new(RefCell::new(Vec::new()));
    let clim = Clim::new(
        vec![
            MenuOption::new("a".to_string(), "other", logging(&log, "other"), false),
            MenuOption::new("k".to_string(), "one", logging(&log, "first"), true),
            MenuOption::new("k".to_string(), "two", logging(&log, "second"), true),
        ],
        "Dup".to_string(),
    );
    assert_eq!(clim.find_option("k"), Some(1));
    let out = play(&clim, &[Ok("k")], &log, 10);
    assert_eq!(out, Some(Ok(())));
    assert!(log.borrow().contains(&"first".to_string()));
    assert!(!log.borrow().contains(&"second".to_string()));
}

#[test]
fn empty_menu_never_ends() {
    let log = Rc::new(RefCell::new(Vec::new()));
    let clim: Clim<Action> = Clim::new(vec![], "Nothing".to_string());
    let reads: Vec<Result<&str, ()>> = vec![Ok(""), Ok("1"), Ok("2"), Ok("exit"), Ok("q")];
    let out = play(&clim, &reads, &log, 5);
    assert_eq!(out, None);
    assert_eq!(*log.borrow(), strings(&["Nothing"; 5]));
}

#[test]
fn welcome_scenario_output() {
    let log = Rc::new(RefCell::new(Vec::new()));
    let clim = two_entry_menu(&log);
    let out = play(&clim, &[Ok("1"), Ok("2")], &log, 10);
    assert_eq!(out, Some(Ok(())));
    assert_eq!(
        *log.borrow(),
        strings(&["Welcome", "1 say hi", "2 quit", "hi", "Welcome", "1 say hi", "2 quit", "bye"])
    );
}
