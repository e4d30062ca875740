//! The order of a build run, and what is handed to the install script.

use vstd::prelude::*;
use vstd::utf8::encode_utf8;

verus! {

/// Why a build run ended without a package.
#[derive(Debug, Clone, Copy, PartialEq, Eq, Structural)]
pub enum Failure {
    Download,
    Unreadable,
    VerificationMismatch,
    Script,
    Packaging,
}

/// Where a build run stands: the step to take next, or how the run ended.
/// The sources are fetched and verified one after the other, by their index.
#[derive(Debug, Clone, Copy, PartialEq, Eq, Structural)]
pub enum Stage {
    Fetch(usize),
    Verify(usize),
    Build,
    Package,
    Done,
    Failed(Failure),
}

/// How the step of a stage came out. A verification reports whether the
/// digests agree, or nothing where the file could not be read.
#[derive(Debug, Clone, Copy, PartialEq, Eq, Structural)]
pub enum Event {
    Fetched(bool),
    Verified(Option<bool>),
    Built(bool),
    Packaged(bool),
}

/// The stage at which a run over `sources` sources begins.
pub open spec fn first_stage(sources: usize) -> Stage {
    if sources > 0 {
        Stage::Fetch(0)
    } else {
        Stage::Build
    }
}

/// The stage that follows `stage` on `event`. Every failing step ends the
/// run; an event that does not answer the step of the stage changes nothing.
pub open spec fn next_stage(sources: usize, stage: Stage, event: Event) -> Stage {
    match (stage, event) {
        (Stage::Fetch(i), Event::Fetched(true)) => Stage::Verify(i),
        (Stage::Fetch(_), Event::Fetched(false)) => Stage::Failed(Failure::Download),
        (Stage::Verify(i), Event::Verified(Some(true))) => if i + 1 < sources {
            Stage::Fetch((i + 1) as usize)
        } else {
            Stage::Build
        },
        (Stage::Verify(_), Event::Verified(Some(false))) => Stage::Failed(
            Failure::VerificationMismatch,
        ),
        (Stage::Verify(_), Event::Verified(None)) => Stage::Failed(Failure::Unreadable),
        (Stage::Build, Event::Built(true)) => Stage::Package,
        (Stage::Build, Event::Built(false)) => Stage::Failed(Failure::Script),
        (Stage::Package, Event::Packaged(true)) => Stage::Done,
        (Stage::Package, Event::Packaged(false)) => Stage::Failed(Failure::Packaging),
        _ => stage,
    }
}

/// The stage reached from `stage` after the events `events`, in their order.
pub open spec fn stage_after(sources: usize, stage: Stage, events: Seq<Event>) -> Stage
    decreases events.len(),
{
    if events.len() == 0 {
        stage
    } else {
        next_stage(sources, stage_after(sources, stage, events.drop_last()), events.last())
    }
}

/// Where a run over `sources` sources begins: at the first source, or at
/// the install script where there is none.
pub fn start(sources: usize) -> (stage: Stage)
    ensures
        stage == first_stage(sources),
{
    if sources > 0 {
        Stage::Fetch(0)
    } else {
        Stage::Build
    }
}

/// The stage that follows `stage` once its step has come out as `event`.
pub fn advance(sources: usize, stage: Stage, event: Event) -> (next: Stage)
    ensures
        next == next_stage(sources, stage, event),
{
    match stage {
        Stage::Fetch(i) => match event {
            Event::Fetched(true) => Stage::Verify(i),
            Event::Fetched(false) => Stage::Failed(Failure::Download),
            _ => stage,
        },
        Stage::Verify(i) => match event {
            Event::Verified(Some(true)) => if i < usize::MAX && i + 1 < sources {
                Stage::Fetch(i + 1)
            } else {
                Stage::Build
            },
            Event::Verified(Some(false)) => Stage::Failed(Failure::VerificationMismatch),
            Event::Verified(None) => Stage::Failed(Failure::Unreadable),
            _ => stage,
        },
        Stage::Build => match event {
            Event::Built(true) => Stage::Package,
            Event::Built(false) => Stage::Failed(Failure::Script),
            _ => stage,
        },
        Stage::Package => match event {
            Event::Packaged(true) => Stage::Done,
            Event::Packaged(false) => Stage::Failed(Failure::Packaging),
            _ => stage,
        },
        _ => stage,
    }
}

/// A run that has failed stays failed, with the same cause, whatever is
/// reported afterwards.
pub proof fn lemma_failure_is_final(sources: usize, failure: Failure, events: Seq<Event>)
    ensures
        stage_after(sources, Stage::Failed(failure), events) == Stage::Failed(failure),
    decreases events.len(),
{
    if events.len() > 0 {
        lemma_failure_is_final(sources, failure, events.drop_last());
    }
}

/// Where the digest of a fetched source differs from the declared one, the
/// run fails with that cause and never reaches the install script, whatever
/// is reported afterwards.
pub proof fn lemma_mismatch_never_builds(sources: usize, index: usize, events: Seq<Event>)
    ensures
        stage_after(
            sources,
            next_stage(sources, Stage::Verify(index), Event::Verified(Some(false))),
            events,
        ) == Stage::Failed(Failure::VerificationMismatch),
        stage_after(
            sources,
            next_stage(sources, Stage::Verify(index), Event::Verified(Some(false))),
            events,
        ) != Stage::Build,
{
    lemma_failure_is_final(sources, Failure::VerificationMismatch, events);
}

/// How many of the events report a source whose digest agrees.
pub open spec fn verified_count(events: Seq<Event>) -> nat
    decreases events.len(),
{
    if events.len() == 0 {
        0
    } else {
        verified_count(events.drop_last()) + if events.last() == Event::Verified(Some(true)) {
            1nat
        } else {
            0nat
        }
    }
}

/// What holds of the stage of a run over `sources` sources after `verified`
/// sources were found to agree.
pub open spec fn in_order(sources: usize, stage: Stage, verified: nat) -> bool {
    match stage {
        Stage::Fetch(i) => i < sources && verified >= i,
        Stage::Verify(i) => i < sources && verified >= i,
        Stage::Build | Stage::Package | Stage::Done => verified >= sources,
        Stage::Failed(_) => true,
    }
}

/// A run reaches the install script, and what follows it, only after every
/// source was fetched and its digest found to agree.
pub proof fn lemma_script_follows_verification(sources: usize, events: Seq<Event>)
    ensures
        in_order(sources, stage_after(sources, first_stage(sources), events), verified_count(events)),
    decreases events.len(),
{
    if events.len() > 0 {
        lemma_script_follows_verification(sources, events.drop_last());
    }
}

/// Whether `name` is what follows the last `/` of `href`, or all of `href`
/// where it holds none.
pub open spec fn is_file_name_of(href: Seq<char>, name: Seq<char>) -> bool {
    exists|k: int|
        {
            &&& 0 <= k <= href.len()
            &&& #[trigger] href.subrange(k, href.len() as int) == name
            &&& (k == 0 || href[k - 1] == '/')
            &&& forall|j: int| k <= j < href.len() ==> href[j] != '/'
        }
}

/// The name under which a source is kept: what follows the last `/` of its
/// address.
pub fn source_file_name(href: &str) -> (name: String)
    ensures
        is_file_name_of(href@, name@),
{
    let n = href.unicode_len();
    let mut k: usize = n;
    while k > 0 && href.get_char(k - 1) != '/'
        invariant
            k <= n,
            n == href@.len(),
            forall|j: int| k <= j < n ==> href@[j] != '/',
        decreases k,
    {
        k -= 1;
    }
    let name = String::from_str(href.substring_char(k, n));
    proof {
        assert(href@.subrange(k as int, href@.len() as int) == name@);
    }
    name
}

/// What the shell of the install script reads, in UTF-8: the line that makes it stop
/// at the first failing statement and at an unset variable, then each line
/// of the script, every one ended by a line feed.
pub open spec fn script_upto(lines: Seq<String>, n: nat) -> Seq<u8>
    decreases n,
{
    if n == 0 || n > lines.len() {
        encode_utf8("set -e -o pipefail -u\n"@)
    } else {
        script_upto(lines, (n - 1) as nat) + encode_utf8(lines[n - 1]@) + seq![10u8]
    }
}

fn append_bytes(out: &mut Vec<u8>, bytes: &[u8])
    ensures
        final(out)@ == old(out)@ + bytes@,
{
    let mut i: usize = 0;
    while i < bytes.len()
        invariant
            i <= bytes.len(),
            out@ == old(out)@ + bytes@.take(i as int),
        decreases bytes.len() - i,
    {
        out.push(bytes[i]);
        proof {
            assert(out@ =~= old(out)@ + bytes@.take(i + 1));
        }
        i += 1;
    }
    proof {
        assert(bytes@.take(bytes@.len() as int) =~= bytes@);
    }
}

/// The bytes to write to the shell that runs the install script.
pub fn script_input(lines: &Vec<String>) -> (input: Vec<u8>)
    ensures
        input@ == script_upto(lines@, lines@.len()),
{
    let mut input: Vec<u8> = Vec::new();
    append_bytes(&mut input, "set -e -o pipefail -u\n".as_bytes());
    let mut i: usize = 0;
    while i < lines.len()
        invariant
            i <= lines.len(),
            input@ == script_upto(lines@, i as nat),
        decreases lines.len() - i,
    {
        append_bytes(&mut input, lines[i].as_str().as_bytes());
        input.push(10u8);
        i += 1;
    }
    input
}

} // verus!
