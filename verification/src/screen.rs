//! The text seen in open windows, put together under a character budget.

use vstd::prelude::*;
use vstd::string::*;
use crate::windows::HwndName;

verus! {

/// The text recognised in one window, under the window's title.
#[derive(Debug, Clone)]
pub struct WindowContent {
    pub title: String,
    pub content: String,
}

impl View for WindowContent {
    type V = (Seq<char>, Seq<char>);

    /// The characters of the title and of the content.
    open spec fn view(&self) -> (Seq<char>, Seq<char>) {
        (self.title@, self.content@)
    }
}

/// The titles and contents of a list of windows.
pub open spec fn contents(windows: Seq<WindowContent>) -> Seq<(Seq<char>, Seq<char>)> {
    Seq::new(windows.len(), |i: int| windows[i]@)
}

/// Every line of `lines`, each followed by a newline.
pub open spec fn joined_lines(lines: Seq<String>) -> Seq<char>
    decreases lines.len(),
{
    if lines.len() == 0 {
        Seq::empty()
    } else {
        joined_lines(lines.drop_last()) + lines.last()@ + seq!['\n']
    }
}

/// The block a window contributes: its title, a colon and a newline, its
/// content, and an empty line.
pub open spec fn block(window: (Seq<char>, Seq<char>)) -> Seq<char> {
    window.0 + seq![':', '\n'] + window.1 + seq!['\n', '\n']
}

/// The blocks of all of `windows`, one after another.
pub open spec fn blocks_text(windows: Seq<(Seq<char>, Seq<char>)>) -> Seq<char>
    decreases windows.len(),
{
    if windows.len() == 0 {
        Seq::empty()
    } else {
        blocks_text(windows.drop_last()) + block(windows.last())
    }
}

/// How many leading windows of `windows` have blocks that together stay
/// within `max_chars` characters.
pub open spec fn fitting(windows: Seq<(Seq<char>, Seq<char>)>, max_chars: nat) -> nat
    decreases windows.len(),
{
    if windows.len() == 0 {
        0
    } else {
        let shorter = fitting(windows.drop_last(), max_chars);
        if shorter == windows.len() - 1 && blocks_text(windows).len() <= max_chars {
            windows.len()
        } else {
            shorter
        }
    }
}

/// The blocks of the leading windows that fit within `max_chars` characters:
/// a block is there whole or, with all that follow it, not at all.
pub open spec fn bounded_text(windows: Seq<(Seq<char>, Seq<char>)>, max_chars: nat) -> Seq<char> {
    blocks_text(windows.take(fitting(windows, max_chars) as int))
}

/// The titles and contents of the windows that were read, in order; a window
/// that could not be read (`None`) has no entry.
pub open spec fn successful(results: Seq<Option<WindowContent>>) -> Seq<(Seq<char>, Seq<char>)>
    decreases results.len(),
{
    if results.len() == 0 {
        Seq::empty()
    } else {
        match results.last() {
            Some(window) => successful(results.drop_last()).push(window@),
            None => successful(results.drop_last()),
        }
    }
}

/// Joins recognised lines, each followed by a newline.
pub fn ocr_from_lines(lines: &Vec<String>) -> (r: String)
    ensures
        r@ == joined_lines(lines@),
{
    let mut result = String::new();
    let mut i: usize = 0;
    while i < lines.len()
        invariant
            i <= lines.len(),
            result@ == joined_lines(lines@.take(i as int)),
        decreases lines.len() - i,
    {
        proof {
            let next = lines@.take(i + 1);
            assert(next.drop_last() =~= lines@.take(i as int));
            assert(next.last() == lines@[i as int]);
            reveal_strlit("\n");
            assert("\n"@ =~= seq!['\n']);
        }
        result.append(lines[i].as_str());
        result.append("\n");
        i += 1;
    }
    proof {
        assert(lines@.take(lines@.len() as int) =~= lines@);
    }
    result
}

/// What one window contributes: its title over the recognised lines, or
/// nothing where the window could not be captured or read (`lines` is
/// `None`).
pub fn extract_text(window_info: &HwndName, lines: Option<&Vec<String>>) -> (r: Option<
    WindowContent,
>)
    ensures
        lines is None <==> r is None,
        r is Some ==> r->Some_0@ == (window_info.window_name@, joined_lines(lines->Some_0@)),
{
    match lines {
        Some(lines) => Some(
            WindowContent { title: window_info.window_name.clone(), content: ocr_from_lines(lines) },
        ),
        None => None,
    }
}

/// The windows that were read, in order, without those that could not be.
pub fn process_windows(results: &Vec<Option<WindowContent>>) -> (r: Vec<WindowContent>)
    ensures
        contents(r@) == successful(results@),
{
    let mut kept: Vec<WindowContent> = Vec::new();
    let mut i: usize = 0;
    while i < results.len()
        invariant
            i <= results.len(),
            contents(kept@) == successful(results@.take(i as int)),
        decreases results.len() - i,
    {
        proof {
            let next = results@.take(i + 1);
            assert(next.drop_last() =~= results@.take(i as int));
            assert(next.last() == results@[i as int]);
        }
        match &results[i] {
            Some(window) => {
                let ghost before = contents(kept@);
                kept.push(
                    WindowContent { title: window.title.clone(), content: window.content.clone() },
                );
                assert(contents(kept@) =~= before.push(window@));
            },
            None => {},
        }
        i += 1;
    }
    proof {
        assert(results@.take(results@.len() as int) =~= results@);
    }
    kept
}

/// The block of one window.
pub fn titled_block(window: &WindowContent) -> (r: String)
    ensures
        r@ == block(window@),
{
    let mut text = window.title.clone();
    text.append(":\n");
    text.append(window.content.as_str());
    text.append("\n\n");
    proof {
        reveal_strlit(":\n");
        reveal_strlit("\n\n");
        assert(":\n"@ =~= seq![':', '\n']);
        assert("\n\n"@ =~= seq!['\n', '\n']);
    }
    text
}

/// Once a block does not fit, no later block is taken.
proof fn lemma_fitting_stops(windows: Seq<(Seq<char>, Seq<char>)>, count: nat, max_chars: nat)
    requires
        count < windows.len(),
        fitting(windows.take(count + 1 as int), max_chars) == count,
    ensures
        fitting(windows, max_chars) == count,
    decreases windows.len(),
{
    if windows.len() == count + 1 {
        assert(windows.take(count + 1 as int) =~= windows);
    } else {
        assert(windows.drop_last().take(count + 1 as int) =~= windows.take(count + 1 as int));
        lemma_fitting_stops(windows.drop_last(), count, max_chars);
    }
}

/// The text of the windows in `window_contents`, block after block, stopping
/// before the first block with which the text would exceed `max_chars`
/// characters.
pub fn get_screen(window_contents: &Vec<WindowContent>, max_chars: usize) -> (r: String)
    ensures
        r@ == bounded_text(contents(window_contents@), max_chars as nat),
        r@.len() <= max_chars,
{
    let ghost windows = contents(window_contents@);
    let mut combined_content = String::new();
    let mut used: usize = 0;
    let mut i: usize = 0;
    while i < window_contents.len()
        invariant
            windows == contents(window_contents@),
            i <= window_contents.len(),
            combined_content@ == blocks_text(windows.take(i as int)),
            used == combined_content@.len(),
            used <= max_chars,
            fitting(windows.take(i as int), max_chars as nat) == i,
        decreases window_contents.len() - i,
    {
        let next_content = titled_block(&window_contents[i]);
        let next_len: usize = next_content.as_str().unicode_len();
        proof {
            let next = windows.take(i + 1);
            assert(next.drop_last() =~= windows.take(i as int));
            assert(next.last() == window_contents@[i as int]@);
        }
        if next_len > max_chars - used {
            proof {
                lemma_fitting_stops(windows, i as nat, max_chars as nat);
            }
            return combined_content;
        }
        combined_content.append(next_content.as_str());
        used = used + next_len;
        i += 1;
    }
    proof {
        assert(windows.take(windows.len() as int) =~= windows);
    }
    combined_content
}

/// The bounded text never exceeds the budget, and it stops only where the
/// next block would: either every window is in it, or with the block of the
/// first window left out it would be longer than `max_chars`.
pub proof fn lemma_budget_respected(windows: Seq<(Seq<char>, Seq<char>)>, max_chars: nat)
    ensures
        fitting(windows, max_chars) <= windows.len(),
        bounded_text(windows, max_chars).len() <= max_chars,
        fitting(windows, max_chars) < windows.len() ==> blocks_text(
            windows.take(fitting(windows, max_chars) + 1 as int),
        ).len() > max_chars,
    decreases windows.len(),
{
    if windows.len() == 0 {
        assert(windows.take(0) =~= windows);
    } else {
        let shorter_list = windows.drop_last();
        let shorter = fitting(shorter_list, max_chars);
        lemma_budget_respected(shorter_list, max_chars);
        assert(windows.take(windows.len() as int) =~= windows);
        assert(shorter_list.take(shorter as int) =~= windows.take(shorter as int));
        if shorter < shorter_list.len() {
            assert(shorter_list.take(shorter + 1 as int) =~= windows.take(shorter + 1 as int));
        }
    }
}

/// A window that could not be read contributes nothing and leaves the other
/// windows' contributions as they are.
pub proof fn lemma_failed_window_contributes_nothing(
    before: Seq<Option<WindowContent>>,
    after: Seq<Option<WindowContent>>,
)
    ensures
        successful(before.push(None) + after) == successful(before + after),
    decreases after.len(),
{
    if after.len() == 0 {
        assert(before.push(None) + after =~= before.push(None));
        assert(before.push(None::<WindowContent>).drop_last() =~= before);
        assert(before + after =~= before);
    } else {
        lemma_failed_window_contributes_nothing(before, after.drop_last());
        assert((before.push(None) + after).drop_last() =~= before.push(None) + after.drop_last());
        assert((before + after).drop_last() =~= before + after.drop_last());
    }
}

} // verus!
