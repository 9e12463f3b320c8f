use vstd::prelude::*;
use crate::option::{MenuOption, OptionView};

verus! {

/// The line shown for one entry: its key, one space, its description.
pub open spec fn entry_line(o: OptionView) -> Seq<char> {
    o.key + seq![' '] + o.description
}

/// Everything written in one render cycle: the title, then one line per entry
/// in menu order.
pub open spec fn menu_text(title: Seq<char>, opts: Seq<OptionView>) -> Seq<Seq<char>> {
    seq![title] + opts.map_values(|o: OptionView| entry_line(o))
}

/// `i` is the first entry whose key is exactly `line`.
pub open spec fn is_first_match(opts: Seq<OptionView>, line: Seq<char>, i: int) -> bool {
    &&& 0 <= i < opts.len()
    &&& opts[i].key == line
    &&& forall|j: int| 0 <= j < i ==> opts[j].key != line
}

/// The entry that an input line selects: the first one whose key equals the
/// line, or none.
pub open spec fn first_match(opts: Seq<OptionView>, line: Seq<char>) -> Option<int> {
    if exists|i: int| is_first_match(opts, line, i) {
        Some(choose|i: int| is_first_match(opts, line, i))
    } else {
        None
    }
}

/// The first match is the one entry that `is_first_match` describes.
pub proof fn lemma_first_match(opts: Seq<OptionView>, line: Seq<char>, i: int)
    ensures
        first_match(opts, line) == Some(i) <==> is_first_match(opts, line, i),
{
    if is_first_match(opts, line, i) {
        let k = choose|k: int| is_first_match(opts, line, k);
        assert(is_first_match(opts, line, k));
        if k < i {
            assert(opts[k].key == line);
        } else if i < k {
            assert(opts[i].key == line);
        }
    }
}

/// The two states of a menu session.
#[derive(Clone, Copy, Debug, PartialEq, Eq, Structural)]
pub enum MenuState {
    Running,
    Stopped,
}

/// The entry whose action runs when `line` is read in `state`.
pub open spec fn selected(opts: Seq<OptionView>, state: MenuState, line: Seq<char>) -> Option<int> {
    if state is Running {
        first_match(opts, line)
    } else {
        None
    }
}

/// The state after `line` is read in `state`: a selected entry marked as exit
/// stops the session; anything else leaves the state as it was.
pub open spec fn next_state(opts: Seq<OptionView>, state: MenuState, line: Seq<char>) -> MenuState {
    match selected(opts, state, line) {
        Some(i) => if opts[i].is_exit {
            MenuState::Stopped
        } else {
            state
        },
        None => state,
    }
}

/// What one input line decides: the state that follows, and the entry whose
/// action is to run, if any.
#[derive(Clone, Copy, Debug, PartialEq, Eq, Structural)]
pub struct Turn {
    pub state: MenuState,
    pub invoke: Option<usize>,
}

/// A menu: a title and an ordered list of entries, kept as given.
#[derive(Clone)]
pub struct Clim<A> {
    menu_options: Vec<MenuOption<A>>,
    pub title: String,
}

impl<A> Clim<A> {
    /// The entries, in menu order.
    pub closed spec fn options(&self) -> Seq<MenuOption<A>> {
        self.menu_options@
    }

    /// The title, as shown at the top of every render cycle.
    pub closed spec fn heading(&self) -> Seq<char> {
        self.title@
    }

    /// The entries without their actions, in menu order.
    pub open spec fn entries(&self) -> Seq<OptionView> {
        self.options().map_values(|o: MenuOption<A>| o@)
    }

    /// Builds a menu; the entries keep their order and contents.
    pub fn new(menu_options: Vec<MenuOption<A>>, title: String) -> (r: Clim<A>)
        ensures
            r.options() == menu_options@,
            r.heading() == title@,
    {
        Clim { menu_options, title }
    }

    /// The lines of one render cycle: the title, then `key description` for
    /// each entry in menu order.
    pub fn menu_lines(&self) -> (r: Vec<String>)
        ensures
            r@.map_values(|s: String| s@) == menu_text(self.heading(), self.entries()),
    {
        let mut lines: Vec<String> = Vec::new();
        lines.push(self.title.clone());
        let mut i: usize = 0;
        while i < self.menu_options.len()
            invariant
                i <= self.menu_options.len(),
                lines@.len() == i + 1,
                lines@[0]@ == self.title@,
                forall|j: int| 0 <= j < i ==> #[trigger] lines@[j + 1]@ == entry_line(self.entries()[j]),
            decreases self.menu_options.len() - i,
        {
            let entry = &self.menu_options[i];
            let line = entry.key().clone().concat(" ").concat(entry.description().as_str());
            proof {
                reveal_strlit(" ");
                assert(line@ == entry_line(self.entries()[i as int]));
            }
            lines.push(line);
            i += 1;
        }
        proof {
            let text = menu_text(self.heading(), self.entries());
            assert forall|j: int| 0 <= j < lines@.len() implies #[trigger] lines@[j]@ == text[j] by {
                if j > 0 {
                    assert(lines@[(j - 1) + 1]@ == entry_line(self.entries()[j - 1]));
                }
            }
            assert(lines@.map_values(|s: String| s@) =~= text);
        }
        lines
    }

    /// The first entry whose key is exactly `line`, if any.
    pub fn find_option(&self, line: &str) -> (r: Option<usize>)
        ensures
            match r {
                Some(i) => first_match(self.entries(), line@) == Some(i as int),
                None => first_match(self.entries(), line@) is None,
            },
            r matches Some(i) ==> i < self.entries().len(),
    {
        let target = line.to_owned();
        let mut i: usize = 0;
        while i < self.menu_options.len()
            invariant
                i <= self.menu_options.len(),
                target@ == line@,
                forall|j: int| 0 <= j < i ==> #[trigger] self.entries()[j].key != line@,
            decreases self.menu_options.len() - i,
        {
            if self.menu_options[i].key().eq(&target) {
                proof {
                    lemma_first_match(self.entries(), line@, i as int);
                }
                return Some(i);
            }
            assert(self.entries()[i as int].key != line@);
            i += 1;
        }
        proof {
            if first_match(self.entries(), line@) is Some {
                let k = first_match(self.entries(), line@)->0;
                lemma_first_match(self.entries(), line@, k);
                assert(self.entries()[k].key != line@);
            }
        }
        None
    }

    /// Decides what one input line does in `state`: which entry's action runs
    /// and which state follows. Nothing is selected once the session stopped.
    pub fn advance(&self, state: MenuState, line: &str) -> (r: Turn)
        ensures
            r.state == next_state(self.entries(), state, line@),
            match r.invoke {
                Some(i) => selected(self.entries(), state, line@) == Some(i as int),
                None => selected(self.entries(), state, line@) is None,
            },
            r.invoke matches Some(i) ==> i < self.entries().len(),
    {
        match state {
            MenuState::Stopped => Turn { state, invoke: None },
            MenuState::Running => match self.find_option(line) {
                Some(i) => {
                    let next = if self.menu_options[i].is_exit() {
                        MenuState::Stopped
                    } else {
                        MenuState::Running
                    };
                    Turn { state: next, invoke: Some(i) }
                },
                None => Turn { state, invoke: None },
            },
        }
    }

    pub fn menu_options(&self) -> (r: &Vec<MenuOption<A>>)
        ensures
            r@ == self.options(),
    {
        &self.menu_options
    }
}

} // verus!
