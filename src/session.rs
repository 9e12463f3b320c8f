use vstd::prelude::*;
use crate::menu::{MenuState, first_match, is_first_match, lemma_first_match, next_state, selected};
use crate::option::OptionView;

verus! {

/// One observable step of a session.
pub enum Effect {
    /// The whole menu is written: the title, then every entry.
    Draw,
    /// The action of the entry at this index runs.
    Invoke(int),
}

/// How a session over a given input ends.
pub enum Finish {
    /// An exit entry was selected.
    Done,
    /// A read failed; the failure is handed to the caller.
    Failed,
    /// The session is still running when the input runs out.
    Waiting,
}

/// The observable course of a session.
pub struct Session {
    pub effects: Seq<Effect>,
    pub finish: Finish,
}

/// The action selected by a line, as a sequence of zero or one effects.
pub open spec fn invoked(sel: Option<int>) -> Seq<Effect> {
    match sel {
        Some(i) => seq![Effect::Invoke(i)],
        None => seq![],
    }
}

/// The course of a session from `state`, where `reads` gives the result of
/// each read in turn (`None` for a failed read). Each cycle draws the menu,
/// reads a line and runs the selected action, until an exit entry is selected,
/// a read fails or the reads run out.
pub open spec fn run_from(opts: Seq<OptionView>, state: MenuState, reads: Seq<Option<Seq<char>>>) -> Session
    decreases reads.len(),
{
    if state is Stopped {
        Session { effects: seq![], finish: Finish::Done }
    } else if reads.len() == 0 {
        Session { effects: seq![], finish: Finish::Waiting }
    } else {
        match reads[0] {
            None => Session { effects: seq![Effect::Draw], finish: Finish::Failed },
            Some(line) => {
                let rest = run_from(opts, next_state(opts, state, line), reads.drop_first());
                Session {
                    effects: seq![Effect::Draw] + invoked(selected(opts, state, line)) + rest.effects,
                    finish: rest.finish,
                }
            },
        }
    }
}

/// An unmatched line is passed over, a matched non-exit entry runs and the
/// session goes on, and a matched exit entry runs and ends the session: two
/// actions in all, in that order, and nothing more is read.
pub proof fn lemma_unmatched_then_two(
    opts: Seq<OptionView>,
    miss: Seq<char>,
    stay: Seq<char>,
    leave: Seq<char>,
    more: Seq<Option<Seq<char>>>,
)
    requires
        first_match(opts, miss) is None,
        first_match(opts, stay) is Some,
        !opts[first_match(opts, stay)->0].is_exit,
        first_match(opts, leave) is Some,
        opts[first_match(opts, leave)->0].is_exit,
    ensures
        run_from(opts, MenuState::Running, seq![Some(miss), Some(stay), Some(leave)] + more) == (Session {
            effects: seq![
                Effect::Draw,
                Effect::Draw,
                Effect::Invoke(first_match(opts, stay)->0),
                Effect::Draw,
                Effect::Invoke(first_match(opts, leave)->0),
            ],
            finish: Finish::Done,
        }),
{
    let reads = seq![Some(miss), Some(stay), Some(leave)] + more;
    let r1 = reads.drop_first();
    let r2 = r1.drop_first();
    let r3 = r2.drop_first();
    assert(reads[0] == Some(miss));
    assert(r1[0] == Some(stay));
    assert(r2[0] == Some(leave));
    let s3 = run_from(opts, MenuState::Stopped, r3);
    assert(s3.effects =~= seq![]);
    assert(next_state(opts, MenuState::Running, leave) == MenuState::Stopped);
    assert(next_state(opts, MenuState::Running, stay) == MenuState::Running);
    assert(next_state(opts, MenuState::Running, miss) == MenuState::Running);
    let s2 = run_from(opts, MenuState::Running, r2);
    let s1 = run_from(opts, MenuState::Running, r1);
    let s0 = run_from(opts, MenuState::Running, reads);
    assert(s2.effects =~= seq![Effect::Draw, Effect::Invoke(first_match(opts, leave)->0)]);
    assert(s1.effects =~= seq![
        Effect::Draw,
        Effect::Invoke(first_match(opts, stay)->0),
        Effect::Draw,
        Effect::Invoke(first_match(opts, leave)->0),
    ]);
    assert(invoked(selected(opts, MenuState::Running, miss)) =~= seq![]);
    assert(s0.effects =~= seq![Effect::Draw] + s1.effects);
    assert(s0.effects =~= seq![
        Effect::Draw,
        Effect::Draw,
        Effect::Invoke(first_match(opts, stay)->0),
        Effect::Draw,
        Effect::Invoke(first_match(opts, leave)->0),
    ]);
}

/// A first line that selects an exit entry runs that entry's action and ends
/// the session after a single cycle.
pub proof fn lemma_exit_at_once(opts: Seq<OptionView>, line: Seq<char>, more: Seq<Option<Seq<char>>>)
    requires
        first_match(opts, line) is Some,
        opts[first_match(opts, line)->0].is_exit,
    ensures
        run_from(opts, MenuState::Running, seq![Some(line)] + more) == (Session {
            effects: seq![Effect::Draw, Effect::Invoke(first_match(opts, line)->0)],
            finish: Finish::Done,
        }),
{
    let reads = seq![Some(line)] + more;
    assert(reads[0] == Some(line));
    assert(next_state(opts, MenuState::Running, line) == MenuState::Stopped);
    let tail = run_from(opts, MenuState::Stopped, reads.drop_first());
    assert(tail.effects =~= seq![]);
    let s = run_from(opts, MenuState::Running, reads);
    assert(s.effects =~= seq![Effect::Draw, Effect::Invoke(first_match(opts, line)->0)]);
}

/// A failed first read ends the session with that failure after drawing the
/// menu once, and no action runs.
pub proof fn lemma_failed_read(opts: Seq<OptionView>, more: Seq<Option<Seq<char>>>)
    ensures
        run_from(opts, MenuState::Running, seq![None] + more) == (Session {
            effects: seq![Effect::Draw],
            finish: Finish::Failed,
        }),
{
    let reads = seq![None] + more;
    assert(reads[0] is None);
}

/// Of entries that share a key, reading that key selects the first of them.
pub proof fn lemma_first_of_equal_keys(opts: Seq<OptionView>, a: int, b: int)
    requires
        0 <= a < b < opts.len(),
        opts[a].key == opts[b].key,
        forall|j: int| 0 <= j < a ==> opts[j].key != opts[a].key,
    ensures
        selected(opts, MenuState::Running, opts[b].key) == Some(a),
{
    assert(is_first_match(opts, opts[b].key, a));
    lemma_first_match(opts, opts[b].key, a);
}

/// A menu without entries never runs an action and never ends by itself,
/// whatever is read.
pub proof fn lemma_empty_menu(reads: Seq<Option<Seq<char>>>)
    ensures
        run_from(seq![], MenuState::Running, reads).finish != Finish::Done,
        forall|k: int|
            0 <= k < run_from(seq![], MenuState::Running, reads).effects.len()
                ==> #[trigger] run_from(seq![], MenuState::Running, reads).effects[k] == Effect::Draw,
    decreases reads.len(),
{
    let opts = Seq::<OptionView>::empty();
    if reads.len() > 0 {
        if let Some(line) = reads[0] {
            assert(!is_first_match(opts, line, choose|i: int| is_first_match(opts, line, i)));
            assert(first_match(opts, line) is None);
            lemma_empty_menu(reads.drop_first());
            let rest = run_from(opts, MenuState::Running, reads.drop_first());
            let s = run_from(opts, MenuState::Running, reads);
            assert(s.effects =~= seq![Effect::Draw] + rest.effects);
            assert forall|k: int| 0 <= k < s.effects.len() implies #[trigger] s.effects[k] == Effect::Draw by {
                if k > 0 {
                    assert(s.effects[k] == rest.effects[k - 1]);
                }
            }
        }
    }
}

} // verus!
