//! The choice of the files of a torrent.

use vstd::prelude::*;

use crate::cli::lang::Lang;
use crate::cli::messages::{either, pick};
use crate::cli::units::{as_float, format_bytes, size_text};
use crate::error::{DlError, Result};

verus! {

/// What the user is asked first.
pub open spec fn choose_text(lang: Lang) -> Seq<char> {
    either(
        lang,
        "此种子包含多个文件，是否选择要下载的文件？"@,
        "This torrent contains several files. Choose which ones to download?"@,
    )
}

/// What the user is asked to choose.
pub open spec fn select_text(lang: Lang) -> Seq<char> {
    either(
        lang,
        "选择要下载的文件（按空格键切换，按回车键确认）"@,
        "Select the files to download (space toggles, enter confirms)"@,
    )
}

/// What the user is asked when nothing is chosen.
pub open spec fn cancel_text(lang: Lang) -> Seq<char> {
    either(
        lang,
        "未选择任何文件，是否取消下载？"@,
        "No file is selected. Cancel the download?"@,
    )
}

/// What the user is asked first.
pub fn choose_prompt(lang: Lang) -> (text: &'static str)
    ensures
        text@ == choose_text(lang),
{
    pick(
        lang,
        "此种子包含多个文件，是否选择要下载的文件？",
        "This torrent contains several files. Choose which ones to download?",
    )
}

/// What the user is asked to choose.
pub fn select_prompt(lang: Lang) -> (text: &'static str)
    ensures
        text@ == select_text(lang),
{
    pick(
        lang,
        "选择要下载的文件（按空格键切换，按回车键确认）",
        "Select the files to download (space toggles, enter confirms)",
    )
}

/// What the user is asked when nothing is chosen.
pub fn cancel_prompt(lang: Lang) -> (text: &'static str)
    ensures
        text@ == cancel_text(lang),
{
    pick(lang, "未选择任何文件，是否取消下载？", "No file is selected. Cancel the download?")
}

/// Whether the user gets to choose among the files of a torrent.
#[derive(Debug, Clone, Copy, PartialEq, Eq, Structural)]
pub enum Choice {
    /// There are none.
    NoFiles,
    /// There is one.
    OneFile,
    Ask,
}

/// Whether the user gets to choose among this many files.
pub open spec fn choice_of(files: int) -> Choice {
    if files == 0 {
        Choice::NoFiles
    } else if files == 1 {
        Choice::OneFile
    } else {
        Choice::Ask
    }
}

/// The user is asked exactly where there is more than one file.
pub proof fn users_choose_among_several(files: nat)
    ensures
        choice_of(files as int) is Ask <==> files >= 2,
        choice_of(files as int) is OneFile <==> files == 1,
        choice_of(files as int) is NoFiles <==> files == 0,
{
}

/// Whether the user gets to choose among this many files.
pub fn choice_among(files: usize) -> (choice: Choice)
    ensures
        choice == choice_of(files as int),
{
    if files == 0 {
        Choice::NoFiles
    } else if files == 1 {
        Choice::OneFile
    } else {
        Choice::Ask
    }
}

/// The line that offers a file: its name and its size.
pub open spec fn offer(file: (usize, String, u64)) -> Seq<char> {
    file.1@ + " ("@ + size_text(as_float(file.2 as int)) + ")"@
}

/// The lines that offer the files.
pub fn offers(files: &Vec<(usize, String, u64)>) -> (lines: Vec<String>)
    ensures
        lines@.len() == files@.len(),
        forall|i: int| 0 <= i < files@.len() ==> (#[trigger] lines@[i])@ == offer(files@[i]),
{
    let mut lines: Vec<String> = Vec::new();
    let mut i: usize = 0;
    while i < files.len()
        invariant
            i <= files@.len(),
            lines@.len() == i,
            forall|j: int| 0 <= j < i ==> (#[trigger] lines@[j])@ == offer(files@[j]),
        decreases files@.len() - i,
    {
        let mut line = files[i].1.clone();
        line.append(" (");
        line.append(format_bytes(files[i].2).as_str());
        line.append(")");
        lines.push(line);
        i += 1;
    }
    lines
}

/// The user has answered, or why there is no answer.
pub enum PickEvent {
    /// Whether to choose at all.
    Choose(std::result::Result<bool, String>),
    /// The positions of the chosen files.
    Select(std::result::Result<Vec<usize>, String>),
    /// Whether to cancel the download.
    Cancel(std::result::Result<bool, String>),
}

/// What follows from an answer.
pub enum PickAction {
    /// Ask for a choice.
    AskSelection,
    /// Ask whether to cancel the download.
    AskCancel,
    /// The choice is made: the numbers of the files, or `None` for all of them.
    Done(Result<Option<Vec<usize>>>),
}

/// The numbers rise from each to the next.
pub open spec fn rises(numbers: Seq<usize>) -> bool {
    forall|a: int, b: int| 0 <= a < b < numbers.len() ==> numbers[a] < numbers[b]
}

/// One of the chosen files has this number.
pub open spec fn is_chosen(
    files: Seq<(usize, String, u64)>,
    selection: Seq<usize>,
    number: usize,
) -> bool {
    exists|k: int| 0 <= k < selection.len() && files[(#[trigger] selection[k]) as int].0 == number
}

/// The numbers are those of the chosen files, each of them once, in order.
pub open spec fn are_chosen(
    files: Seq<(usize, String, u64)>,
    selection: Seq<usize>,
    numbers: Seq<usize>,
) -> bool {
    &&& rises(numbers)
    &&& forall|number: usize| #[trigger] numbers.contains(number) <==> is_chosen(
        files,
        selection,
        number,
    )
}

/// Puts a number in its place, unless it is there.
fn put(numbers: &mut Vec<usize>, number: usize)
    requires
        rises(old(numbers)@),
    ensures
        rises(final(numbers)@),
        forall|n: usize| #[trigger]
            final(numbers)@.contains(n) <==> old(numbers)@.contains(n) || n == number,
{
    let len: usize = numbers.len();
    let mut at: usize = 0;
    while at < len && numbers[at] < number
        invariant
            at <= len == numbers@.len(),
            forall|j: int| 0 <= j < at ==> numbers@[j] < number,
        decreases len - at,
    {
        at += 1;
    }
    let ghost before = numbers@;
    if at < len && numbers[at] == number {
        assert(before[at as int] == number);
        return;
    }
    numbers.insert(at, number);
    proof {
        assert(numbers@ == before.insert(at as int, number));
        assert(numbers@[at as int] == number);
        assert forall|a: int, b: int| 0 <= a < b < numbers@.len() implies numbers@[a]
            < numbers@[b] by {
            if at < len {
                assert(before[at as int] > number);
            }
        }
        assert forall|n: usize| #[trigger] numbers@.contains(n) implies before.contains(n) || n
            == number by {
            let k = numbers@.index_of(n);
            if k < at {
                assert(before[k] == n);
            } else if k > at {
                assert(before[k - 1] == n);
            }
        }
        assert forall|n: usize| before.contains(n) implies #[trigger] numbers@.contains(n) by {
            let k = before.index_of(n);
            if k < at {
                assert(numbers@[k] == n);
            } else {
                assert(numbers@[k + 1] == n);
            }
        }
    }
}

/// The numbers of the chosen files, each of them once, in order.
pub fn chosen_numbers(files: &Vec<(usize, String, u64)>, selection: &Vec<usize>) -> (numbers: Vec<
    usize,
>)
    requires
        forall|k: int| 0 <= k < selection@.len() ==> (#[trigger] selection@[k]) < files@.len(),
    ensures
        are_chosen(files@, selection@, numbers@),
{
    let mut numbers: Vec<usize> = Vec::new();
    let mut k: usize = 0;
    while k < selection.len()
        invariant
            k <= selection@.len(),
            forall|j: int| 0 <= j < selection@.len() ==> (#[trigger] selection@[j]) < files@.len(),
            rises(numbers@),
            forall|n: usize| #[trigger]
                numbers@.contains(n) <==> is_chosen(files@, selection@.take(k as int), n),
        decreases selection@.len() - k,
    {
        let ghost before = numbers@;
        put(&mut numbers, files[selection[k]].0);
        proof {
            let taken = selection@.take(k as int);
            let next = selection@.take(k + 1);
            assert forall|n: usize| #[trigger] numbers@.contains(n) implies is_chosen(
                files@,
                next,
                n,
            ) by {
                if before.contains(n) {
                    let j = choose|j: int|
                        0 <= j < taken.len() && files@[(#[trigger] taken[j]) as int].0 == n;
                    assert(next[j] == taken[j]);
                } else {
                    assert(next[k as int] == selection@[k as int]);
                }
            }
            assert forall|n: usize| is_chosen(files@, next, n) implies #[trigger]
                numbers@.contains(n) by {
                let j = choose|j: int|
                    0 <= j < next.len() && files@[(#[trigger] next[j]) as int].0 == n;
                if j < k {
                    assert(taken[j] == next[j]);
                    assert(before.contains(n));
                }
            }
        }
        k += 1;
    }
    assert(selection@.take(k as int) =~= selection@);
    numbers
}

/// A choice has one list of numbers.
pub proof fn chosen_numbers_are_unique(
    files: Seq<(usize, String, u64)>,
    selection: Seq<usize>,
    a: Seq<usize>,
    b: Seq<usize>,
)
    requires
        are_chosen(files, selection, a),
        are_chosen(files, selection, b),
    ensures
        a == b,
{
    assert forall|n: usize| a.contains(n) <==> b.contains(n) by {}
    lemma_rising_are_equal(a, b);
}

proof fn lemma_rising_are_equal(a: Seq<usize>, b: Seq<usize>)
    requires
        rises(a),
        rises(b),
        forall|n: usize| a.contains(n) <==> b.contains(n),
    ensures
        a == b,
    decreases a.len(),
{
    if a.len() == 0 {
        if b.len() > 0 {
            assert(b.contains(b[0]));
        }
        assert(a =~= b);
    } else {
        assert(a.contains(a.last()));
        assert(b.contains(a.last()));
        assert(b.contains(b.last()));
        assert(a.contains(b.last()));
        let i = b.index_of(a.last());
        let j = a.index_of(b.last());
        assert(a.last() == b.last());
        let x = a.drop_last();
        let y = b.drop_last();
        assert forall|n: usize| x.contains(n) <==> y.contains(n) by {
            if x.contains(n) {
                let k = x.index_of(n);
                assert(a[k] == n);
                assert(a.contains(n));
                let m = b.index_of(n);
                assert(n < a.last());
                assert(y[m] == n);
            }
            if y.contains(n) {
                let k = y.index_of(n);
                assert(b[k] == n);
                assert(b.contains(n));
                let m = a.index_of(n);
                assert(n < b.last());
                assert(x[m] == n);
            }
        }
        lemma_rising_are_equal(x, y);
        assert(a =~= x.push(a.last()));
        assert(b =~= y.push(b.last()));
    }
}

fn failed(what: &str, reason: String) -> (action: PickAction)
    ensures
        action matches PickAction::Done(Err(DlError::Torrent(text))) && text@ == what@ + reason@,
{
    let mut text = what.to_owned();
    text.append(reason.as_str());
    PickAction::Done(Err(DlError::Torrent(text)))
}

/// What is told when the first question gets no answer.
pub open spec fn choose_failure(lang: Lang) -> Seq<char> {
    either(lang, "交互提示失败："@, "The prompt failed: "@)
}

/// What is told when the selection gets no answer.
pub open spec fn select_failure(lang: Lang) -> Seq<char> {
    either(lang, "交互选择失败："@, "The selection failed: "@)
}

/// What is told when the question whether to cancel gets no answer.
pub open spec fn cancel_failure(lang: Lang) -> Seq<char> {
    either(lang, "交互取消提示失败："@, "The cancel prompt failed: "@)
}

/// What is told when the user cancels the download.
pub open spec fn cancelled_text(lang: Lang) -> Seq<char> {
    either(lang, "用户取消了下载"@, "The user cancelled the download"@)
}

/// The action is what follows from the answer.
pub open spec fn follows(
    files: Seq<(usize, String, u64)>,
    event: PickEvent,
    lang: Lang,
    action: PickAction,
) -> bool {
    match event {
        PickEvent::Choose(Ok(true)) => action is AskSelection,
        PickEvent::Choose(Ok(false)) => action matches PickAction::Done(Ok(None)),
        PickEvent::Choose(Err(reason)) => {
            &&& action matches PickAction::Done(Err(DlError::Torrent(text)))
            &&& text@ == choose_failure(lang) + reason@
        },
        PickEvent::Select(Ok(selection)) => if selection@.len() == 0 {
            action is AskCancel
        } else {
            &&& action matches PickAction::Done(Ok(Some(numbers)))
            &&& are_chosen(files, selection@, numbers@)
        },
        PickEvent::Select(Err(reason)) => {
            &&& action matches PickAction::Done(Err(DlError::Torrent(text)))
            &&& text@ == select_failure(lang) + reason@
        },
        PickEvent::Cancel(Ok(true)) => {
            &&& action matches PickAction::Done(Err(DlError::Torrent(text)))
            &&& text@ == cancelled_text(lang)
        },
        PickEvent::Cancel(Ok(false)) => action is AskSelection,
        PickEvent::Cancel(Err(reason)) => {
            &&& action matches PickAction::Done(Err(DlError::Torrent(text)))
            &&& text@ == cancel_failure(lang) + reason@
        },
    }
}

/// All files are fetched exactly where the user does not want to choose, some
/// exactly where some are chosen, and then at least one; the download fails
/// exactly where a question gets no answer or the user cancels; and an empty
/// choice leads to the question whether to cancel, and from there back to the
/// choice.
pub proof fn choices_are_followed(
    files: Seq<(usize, String, u64)>,
    event: PickEvent,
    lang: Lang,
    action: PickAction,
)
    requires
        follows(files, event, lang, action),
    ensures
        (action matches PickAction::Done(Ok(None))) <==> (event matches PickEvent::Choose(Ok(
            false,
        ))),
        (action matches PickAction::Done(Ok(Some(_)))) <==> (event matches PickEvent::Select(Ok(
            selection,
        )) && selection@.len() > 0),
        action matches PickAction::Done(Ok(Some(numbers))) ==> numbers@.len() > 0,
        action is AskCancel <==> (event matches PickEvent::Select(Ok(selection)) && selection@.len()
            == 0),
        action is AskSelection <==> (event matches PickEvent::Choose(Ok(true))) || (
        event matches PickEvent::Cancel(Ok(false))),
        (action matches PickAction::Done(Err(_))) <==> (event matches PickEvent::Choose(Err(_)))
            || (event matches PickEvent::Select(Err(_))) || (event matches PickEvent::Cancel(Err(
            _,
        ))) || (event matches PickEvent::Cancel(Ok(true))),
{
    if let PickEvent::Select(Ok(selection)) = event {
        if let PickAction::Done(Ok(Some(numbers))) = action {
            let number = files[selection@[0] as int].0;
            assert(is_chosen(files, selection@, number));
            assert(numbers@.contains(number));
        }
    }
}

/// Decides what follows from an answer. Without a choice all files are fetched;
/// an empty choice cancels the download or is made again.
pub fn pick_step(files: &Vec<(usize, String, u64)>, event: PickEvent, lang: Lang) -> (action:
    PickAction)
    requires
        event matches PickEvent::Select(Ok(selection)) ==> forall|k: int|
            0 <= k < selection@.len() ==> (#[trigger] selection@[k]) < files@.len(),
    ensures
        follows(files@, event, lang, action),
{
    match event {
        PickEvent::Choose(Ok(true)) => PickAction::AskSelection,
        PickEvent::Choose(Ok(false)) => PickAction::Done(Ok(None)),
        PickEvent::Choose(Err(reason)) => failed(
            pick(lang, "交互提示失败：", "The prompt failed: "),
            reason,
        ),
        PickEvent::Select(Ok(selection)) => {
            if selection.len() == 0 {
                PickAction::AskCancel
            } else {
                PickAction::Done(Ok(Some(chosen_numbers(files, &selection))))
            }
        },
        PickEvent::Select(Err(reason)) => failed(
            pick(lang, "交互选择失败：", "The selection failed: "),
            reason,
        ),
        PickEvent::Cancel(Ok(true)) => {
            PickAction::Done(Err(DlError::Torrent(
                pick(lang, "用户取消了下载", "The user cancelled the download").to_owned(),
            )))
        },
        PickEvent::Cancel(Ok(false)) => PickAction::AskSelection,
        PickEvent::Cancel(Err(reason)) => failed(
            pick(lang, "交互取消提示失败：", "The cancel prompt failed: "),
            reason,
        ),
    }
}

/// The line that offers a file starts with its name, and has its size in
/// brackets behind that.
pub proof fn offers_name_the_file(number: usize, name: String, len: u64)
    ensures
        offer((number, name, len)) == name@ + (" ("@ + size_text(as_float(len as int)) + ")"@),
        name@.is_prefix_of(offer((number, name, len))),
{
    let line = offer((number, name, len));
    let size = " ("@ + size_text(as_float(len as int)) + ")"@;
    assert(line =~= name@ + size);
    assert(line.take(name@.len() as int) =~= name@);
}

/// A chosen file is fetched under its number whatever the order of the choice,
/// and one that is not chosen is not fetched.
pub proof fn only_chosen_files_are_fetched(
    files: Seq<(usize, String, u64)>,
    selection: Seq<usize>,
    numbers: Seq<usize>,
    k: int,
    at: int,
)
    requires
        are_chosen(files, selection, numbers),
        0 <= k < selection.len(),
        0 <= at < numbers.len(),
    ensures
        numbers.contains(files[selection[k] as int].0),
        exists|j: int|
            0 <= j < selection.len() && files[(#[trigger] selection[j]) as int].0 == numbers[at],
        at + 1 < numbers.len() ==> numbers[at] < numbers[at + 1],
{
    assert(is_chosen(files, selection, files[selection[k] as int].0));
    assert(numbers.contains(numbers[at]));
}

/// The questions, and what is told where they get no answer, are in the language
/// that is spoken.
pub proof fn questions_are_in_the_language()
    ensures
        choose_text(Lang::Zh) == "此种子包含多个文件，是否选择要下载的文件？"@,
        select_text(Lang::Zh) == "选择要下载的文件（按空格键切换，按回车键确认）"@,
        cancel_text(Lang::Zh) == "未选择任何文件，是否取消下载？"@,
        choose_failure(Lang::Zh) == "交互提示失败："@,
        select_failure(Lang::Zh) == "交互选择失败："@,
        cancel_failure(Lang::Zh) == "交互取消提示失败："@,
        cancelled_text(Lang::Zh) == "用户取消了下载"@,
        choose_text(Lang::En)
            == "This torrent contains several files. Choose which ones to download?"@,
        select_text(Lang::En) == "Select the files to download (space toggles, enter confirms)"@,
        cancel_text(Lang::En) == "No file is selected. Cancel the download?"@,
        choose_failure(Lang::En) == "The prompt failed: "@,
        select_failure(Lang::En) == "The selection failed: "@,
        cancel_failure(Lang::En) == "The cancel prompt failed: "@,
        cancelled_text(Lang::En) == "The user cancelled the download"@,
{
}

} // verus!
