//! The course of replacing a file. The new content is written to a file beside it and
//! takes its place only when it is complete.
//!
//! Whoever drives a replacement performs the operation that its stage names and hands
//! the outcome back with `resume`, until the stage is `Done` or `Failed`.

use vstd::prelude::*;

use crate::text::{chars_of, join, same_text, text_of};

verus! {

/// The operation at hand.
pub enum ReplaceStage {
    /// Create the file beside, empty.
    Create,
    /// Put the new content into bytes.
    Encode,
    /// Write the bytes to the file beside.
    Write,
    /// Have the file beside reach the disk.
    Sync,
    /// Does the file that is to be replaced exist?
    Probe,
    /// Remove the file that is to be replaced.
    Remove,
    /// Rename the file beside, to take its place.
    Rename,
    /// The file is replaced.
    Done,
    /// The replacement failed.
    Failed(String),
}

/// What stands before the last dot of `name`, if it has one.
pub open spec fn before_last_dot(name: Seq<char>) -> Option<Seq<char>>
    decreases name.len(),
{
    if name.len() == 0 {
        None
    } else if name.last() == '.' {
        Some(name.drop_last())
    } else {
        before_last_dot(name.drop_last())
    }
}

/// `name` without its extension. A dot that begins the name begins no extension.
pub open spec fn stem(name: Seq<char>) -> Seq<char> {
    match before_last_dot(name) {
        Some(front) => if front.len() > 0 {
            front
        } else {
            name
        },
        None => name,
    }
}

/// `name` without its extension.
pub fn stem_of(name: &str) -> (front: String)
    ensures
        front@ == stem(name@),
{
    let chars: Vec<char> = chars_of(name);
    let mut end: usize = chars.len();
    assert(chars@.take(end as int) =~= chars@);
    while end > 0 && chars[end - 1] != '.'
        invariant
            end <= chars@.len(),
            before_last_dot(chars@) == before_last_dot(chars@.take(end as int)),
        decreases end,
    {
        assert(chars@.take(end as int).drop_last() =~= chars@.take(end - 1));
        end -= 1;
    }
    proof {
        if end > 0 {
            assert(chars@.take(end as int).drop_last() =~= chars@.take(end - 1));
        }
    }
    if end > 1 {
        let front: String = text_of(chars.as_slice(), 0, end - 1);
        assert(front@ =~= chars@.take(end - 1));
        front
    } else {
        name.to_owned()
    }
}

/// Whether `name` is the name of a file: not a path, and more than dots that mark a
/// directory, without its extension too.
pub open spec fn is_name(name: Seq<char>) -> bool {
    &&& name.len() > 0
    &&& stem(name) != "."@
    &&& !name.contains('/')
    &&& !name.contains('\\')
}

/// Whether `name` is the name of a file.
pub fn is_file_name(name: &str) -> (yes: bool)
    ensures
        yes == is_name(name@),
{
    let chars: Vec<char> = chars_of(name);
    let front: String = stem_of(name);
    if chars.len() == 0 || same_text(front.as_str(), ".") {
        return false;
    }
    let mut i: usize = 0;
    while i < chars.len()
        invariant
            chars@ == name@,
            i <= chars@.len(),
            forall|k: int| 0 <= k < i ==> chars@[k] != '/' && chars@[k] != '\\',
        decreases chars@.len() - i,
    {
        if chars[i] == '/' || chars[i] == '\\' {
            assert(name@.contains(chars@[i as int]));
            return false;
        }
        i += 1;
    }
    true
}

/// The name of the file beside the file `name`: the same, but for the extension.
pub fn temporary_name(name: &str) -> (temporary: String)
    requires
        is_name(name@),
    ensures
        temporary@ == stem(name@) + ".json.tmp"@,
{
    let front: String = stem_of(name);
    join(front.as_str(), ".json.tmp")
}

/// The stage that follows an operation that had to succeed.
pub open spec fn unless_failed(outcome: Result<bool, String>, next: ReplaceStage) -> ReplaceStage {
    match outcome {
        Ok(_) => next,
        Err(detail) => ReplaceStage::Failed(detail),
    }
}

/// The operation that follows from the outcome of the one at hand. A question whose
/// answer could not be had counts as answered with no.
pub open spec fn next_stage(stage: ReplaceStage, outcome: Result<bool, String>) -> ReplaceStage {
    match stage {
        ReplaceStage::Create => unless_failed(outcome, ReplaceStage::Encode),
        ReplaceStage::Encode => unless_failed(outcome, ReplaceStage::Write),
        ReplaceStage::Write => unless_failed(outcome, ReplaceStage::Sync),
        ReplaceStage::Sync => unless_failed(outcome, ReplaceStage::Probe),
        ReplaceStage::Probe => if outcome == Ok::<bool, String>(true) {
            ReplaceStage::Remove
        } else {
            ReplaceStage::Rename
        },
        ReplaceStage::Remove => unless_failed(outcome, ReplaceStage::Rename),
        ReplaceStage::Rename => unless_failed(outcome, ReplaceStage::Done),
        ReplaceStage::Done => ReplaceStage::Done,
        ReplaceStage::Failed(detail) => ReplaceStage::Failed(detail),
    }
}

fn continue_unless_failed(outcome: Result<bool, String>, next: ReplaceStage) -> (stage:
    ReplaceStage)
    ensures
        stage == unless_failed(outcome, next),
{
    match outcome {
        Ok(_) => next,
        Err(detail) => ReplaceStage::Failed(detail),
    }
}

/// A replacement under way.
pub struct Replacement {
    pub stage: ReplaceStage,
}

impl Replacement {
    /// Begins a replacement.
    pub fn begin() -> (replacement: Self)
        ensures
            replacement.stage is Create,
    {
        Replacement { stage: ReplaceStage::Create }
    }

    /// Goes on with the outcome of the operation at hand.
    pub fn resume(self, outcome: Result<bool, String>) -> (next: Self)
        ensures
            next.stage == next_stage(self.stage, outcome),
    {
        let stage: ReplaceStage = match self.stage {
            ReplaceStage::Create => continue_unless_failed(outcome, ReplaceStage::Encode),
            ReplaceStage::Encode => continue_unless_failed(outcome, ReplaceStage::Write),
            ReplaceStage::Write => continue_unless_failed(outcome, ReplaceStage::Sync),
            ReplaceStage::Sync => continue_unless_failed(outcome, ReplaceStage::Probe),
            ReplaceStage::Probe => match outcome {
                Ok(true) => ReplaceStage::Remove,
                _ => ReplaceStage::Rename,
            },
            ReplaceStage::Remove => continue_unless_failed(outcome, ReplaceStage::Rename),
            ReplaceStage::Rename => continue_unless_failed(outcome, ReplaceStage::Done),
            ReplaceStage::Done => ReplaceStage::Done,
            ReplaceStage::Failed(detail) => ReplaceStage::Failed(detail),
        };
        Replacement { stage }
    }
}

/// The two files that a replacement works on. Each is missing, or holds a content,
/// which is known by a number.
pub struct Files {
    pub beside: Option<int>,
    pub target: Option<int>,
}

/// Whether the operation of `stage` may turn `before` into `after` and have this
/// outcome, where `content` is the new content. The question is answered truly and
/// changes nothing. Writing changes the file beside alone, and may leave anything in it
/// when it fails. Removing and renaming do what they say, or fail and do nothing.
pub open spec fn may_become(
    stage: ReplaceStage,
    outcome: Result<bool, String>,
    content: int,
    before: Files,
    after: Files,
) -> bool {
    match stage {
        ReplaceStage::Create => after.target == before.target,
        ReplaceStage::Write => after.target == before.target && (outcome is Ok ==> after.beside
            == Some(content)),
        ReplaceStage::Probe => after == before && (outcome == Ok::<bool, String>(true))
            == before.target is Some,
        ReplaceStage::Remove => if outcome is Ok {
            after == (Files { target: None, ..before })
        } else {
            after == before
        },
        ReplaceStage::Rename => if outcome is Ok {
            after == (Files { beside: None, target: before.beside })
        } else {
            after == before
        },
        ReplaceStage::Encode
        | ReplaceStage::Sync
        | ReplaceStage::Done
        | ReplaceStage::Failed(_) => after == before,
    }
}

/// Whether these are the stages, the outcomes and the files of a replacement, from its
/// beginning.
pub open spec fn is_run(
    content: int,
    stages: Seq<ReplaceStage>,
    outcomes: Seq<Result<bool, String>>,
    files: Seq<Files>,
) -> bool {
    &&& stages.len() == outcomes.len() + 1
    &&& files.len() == outcomes.len() + 1
    &&& stages[0] is Create
    &&& forall|i: int|
        0 <= i < outcomes.len() ==> stages[i + 1] == next_stage(stages[i], #[trigger] outcomes[i])
            && may_become(stages[i], outcomes[i], content, files[i], files[i + 1])
}

/// What holds of the files at a stage, where the target held `old` at first.
spec fn files_hold(stage: ReplaceStage, files: Files, old: Option<int>, content: int) -> bool {
    match stage {
        ReplaceStage::Create | ReplaceStage::Encode | ReplaceStage::Write => files.target == old,
        ReplaceStage::Sync | ReplaceStage::Probe => files.target == old && files.beside == Some(
            content,
        ),
        ReplaceStage::Remove => files.target == old && files.beside == Some(content),
        ReplaceStage::Rename => files.target is None && files.beside == Some(content),
        ReplaceStage::Done => files.target == Some(content),
        ReplaceStage::Failed(_) => files.target == old || (files.target is None && files.beside
            == Some(content)),
    }
}

/// At every moment of a replacement the old content is in place, or the new content
/// is, or the new content is complete beside and nothing is in place. One that is done
/// has put the new content in place.
pub proof fn contents_are_not_lost(
    content: int,
    stages: Seq<ReplaceStage>,
    outcomes: Seq<Result<bool, String>>,
    files: Seq<Files>,
    n: nat,
)
    requires
        is_run(content, stages, outcomes, files),
        n < stages.len(),
    ensures
        files[n as int].target == files[0].target || files[n as int].target == Some(content) || (
        files[n as int].target is None && files[n as int].beside == Some(content)),
        stages[n as int] is Done ==> files[n as int].target == Some(content),
{
    lemma_files_hold(content, stages, outcomes, files, n);
}

proof fn lemma_files_hold(
    content: int,
    stages: Seq<ReplaceStage>,
    outcomes: Seq<Result<bool, String>>,
    files: Seq<Files>,
    n: nat,
)
    requires
        is_run(content, stages, outcomes, files),
        n < stages.len(),
    ensures
        files_hold(stages[n as int], files[n as int], files[0].target, content),
    decreases n,
{
    if n > 0 {
        lemma_files_hold(content, stages, outcomes, files, (n - 1) as nat);
        assert(stages[n as int] == next_stage(stages[n - 1], outcomes[n - 1]));
    }
}

/// The file beside a file has the same name but for the extension, which is what follows
/// the last dot, unless that dot begins the name.
pub proof fn extensions_are_replaced(base: Seq<char>, extension: Seq<char>)
    requires
        base.len() > 0,
        !extension.contains('.'),
    ensures
        stem(base.push('.') + extension) == base,
        !base.contains('.') ==> stem(base) == base,
        !extension.contains('.') ==> stem(seq!['.'] + extension) == seq!['.'] + extension,
{
    lemma_before_last_dot(base, extension);
    lemma_before_last_dot(Seq::empty(), extension);
    assert(Seq::<char>::empty().push('.') + extension =~= seq!['.'] + extension);
    if !base.contains('.') {
        lemma_no_dot(base);
    }
}

proof fn lemma_before_last_dot(base: Seq<char>, extension: Seq<char>)
    requires
        !extension.contains('.'),
    ensures
        before_last_dot(base.push('.') + extension) == Some(base),
    decreases extension.len(),
{
    let name = base.push('.') + extension;
    if extension.len() == 0 {
        assert(name.drop_last() =~= base);
    } else {
        let front = extension.drop_last();
        assert(extension.contains(extension[extension.len() - 1]));
        assert forall|i: int| 0 <= i < front.len() implies front[i] != '.' by {
            assert(extension.contains(extension[i]));
        }
        lemma_before_last_dot(base, front);
        assert(name.drop_last() =~= base.push('.') + front);
    }
}

proof fn lemma_no_dot(name: Seq<char>)
    requires
        !name.contains('.'),
    ensures
        before_last_dot(name) is None,
    decreases name.len(),
{
    if name.len() > 0 {
        assert(name.contains(name[name.len() - 1]));
        assert forall|i: int| 0 <= i < name.drop_last().len() implies name.drop_last()[i] != '.' by {
            assert(name.contains(name[i]));
        }
        lemma_no_dot(name.drop_last());
    }
}

/// Whether these are the stages and the outcomes of a replacement, from its beginning.
pub open spec fn is_course(stages: Seq<ReplaceStage>, outcomes: Seq<Result<bool, String>>) -> bool {
    &&& stages.len() == outcomes.len() + 1
    &&& stages[0] is Create
    &&& forall|i: int|
        0 <= i < outcomes.len() ==> stages[i + 1] == next_stage(stages[i], #[trigger] outcomes[i])
}

/// How many operations a replacement can have left, at most.
pub open spec fn operations_left(stage: ReplaceStage) -> nat {
    match stage {
        ReplaceStage::Create => 7,
        ReplaceStage::Encode => 6,
        ReplaceStage::Write => 5,
        ReplaceStage::Sync => 4,
        ReplaceStage::Probe => 3,
        ReplaceStage::Remove => 2,
        ReplaceStage::Rename => 1,
        ReplaceStage::Done => 0,
        ReplaceStage::Failed(_) => 0,
    }
}

/// A replacement in which no operation fails is done after at most seven operations,
/// whether or not there is a file to replace.
pub proof fn replacements_without_trouble_succeed(
    stages: Seq<ReplaceStage>,
    outcomes: Seq<Result<bool, String>>,
    n: nat,
)
    requires
        is_course(stages, outcomes),
        n < stages.len(),
        forall|i: int| 0 <= i < n ==> (#[trigger] outcomes[i]) is Ok,
    ensures
        stages[n as int] !is Failed,
        stages[n as int] is Done || operations_left(stages[n as int]) + n <= 7,
        n >= 7 ==> stages[n as int] is Done,
    decreases n,
{
    if n > 0 {
        replacements_without_trouble_succeed(stages, outcomes, (n - 1) as nat);
        assert(outcomes[n - 1] is Ok);
        assert(stages[n as int] == next_stage(stages[n - 1], outcomes[n - 1]));
    }
}

/// A replacement fails exactly where an operation does, with its words. That it cannot be
/// told whether there is a file to replace is no reason.
pub proof fn replacements_fail_exactly_where_an_operation_does(
    stage: ReplaceStage,
    outcome: Result<bool, String>,
)
    requires
        stage !is Failed,
    ensures
        next_stage(stage, outcome) is Failed <==> outcome is Err && stage !is Probe
            && stage !is Done,
        next_stage(stage, outcome) matches ReplaceStage::Failed(detail) ==> outcome == Err::<
            bool,
            String,
        >(detail),
{
}

/// Nothing is removed or renamed before the new content has reached the disk.
pub proof fn contents_reach_the_disk_first(
    stages: Seq<ReplaceStage>,
    outcomes: Seq<Result<bool, String>>,
    n: nat,
)
    requires
        is_course(stages, outcomes),
        n < stages.len(),
        stages[n as int] is Probe || stages[n as int] is Remove || stages[n as int] is Rename
            || stages[n as int] is Done,
    ensures
        exists|k: int| 0 < k < n && #[trigger] reaches_the_disk(stages, outcomes, k),
    decreases n,
{
    if n > 0 {
        assert(stages[n as int] == next_stage(stages[n - 1], outcomes[n - 1]));
        if stages[n - 1] is Sync {
            lemma_synced_is_written(stages, outcomes, (n - 1) as nat);
            assert(reaches_the_disk(stages, outcomes, n - 1));
        } else {
            contents_reach_the_disk_first(stages, outcomes, (n - 1) as nat);
            let k = choose|k: int| 0 < k < n - 1 && #[trigger] reaches_the_disk(stages, outcomes, k);
            assert(reaches_the_disk(stages, outcomes, k));
        }
    }
}

/// Whether operation `k` had what was written right before it reach the disk.
pub open spec fn reaches_the_disk(
    stages: Seq<ReplaceStage>,
    outcomes: Seq<Result<bool, String>>,
    k: int,
) -> bool {
    &&& stages[k - 1] is Write
    &&& outcomes[k - 1] is Ok
    &&& stages[k] is Sync
    &&& outcomes[k] is Ok
}

proof fn lemma_synced_is_written(
    stages: Seq<ReplaceStage>,
    outcomes: Seq<Result<bool, String>>,
    n: nat,
)
    requires
        is_course(stages, outcomes),
        n < stages.len(),
        stages[n as int] is Sync,
    ensures
        n > 0,
        stages[n - 1] is Write,
        outcomes[n - 1] is Ok,
{
    if n > 0 {
        assert(stages[n as int] == next_stage(stages[n - 1], outcomes[n - 1]));
    }
}

} // verus!
