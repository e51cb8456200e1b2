//! The steps that load the native engine.

use crate::http::{internal_error, HttpError, Status};
use crate::text::{
    decimal, decimal_text, joined, law_decimal_is_all_digits, law_decimal_round_trip,
};
use vstd::prelude::*;
use vstd::string::*;

verus! {

/// The fewest bytes that can be an engine.
pub const MIN_ENGINE_BYTES: usize = 1000;

/// The refusal of bytes that are too few to be an engine.
pub open spec fn too_small(bytes: nat) -> (Status, Seq<char>) {
    (Status::BadRequest, "init body too small: "@ + decimal(bytes) + " bytes"@)
}

/// Refuses bytes that are too few to be an engine.
pub fn check_engine_size(bytes: usize) -> (r: Result<(), HttpError>)
    ensures
        match r {
            Ok(()) => bytes >= MIN_ENGINE_BYTES,
            Err(e) => bytes < MIN_ENGINE_BYTES && e@ == too_small(bytes as nat),
        },
        r is Ok <==> bytes >= 1000,
        (r matches Err(e) ==> e.status == Status::BadRequest && e.message@
            == "init body too small: "@ + decimal(bytes as nat) + " bytes"@),
{
    if bytes < MIN_ENGINE_BYTES {
        let size = decimal_text(bytes as u128);
        let message = joined(joined("init body too small: ", size.as_str()).as_str(), " bytes");
        return Err(HttpError { status: Status::BadRequest, message });
    }
    Ok(())
}

/// The name of the file that the engine's bytes go to, for a process and a point
/// in time.
pub open spec fn engine_file(process_id: u32, now_ms: u128) -> Seq<char> {
    "rp-engine-"@ + decimal(process_id as nat) + "-"@ + decimal(now_ms as nat) + ".dylib"@
}

/// The name of the file that the engine's bytes go to.
pub fn engine_file_name(process_id: u32, now_ms: u128) -> (r: String)
    ensures
        r@ == engine_file(process_id, now_ms),
        r@ == "rp-engine-"@ + decimal(process_id as nat) + "-"@ + decimal(now_ms as nat)
            + ".dylib"@,
{
    let stem = joined("rp-engine-", decimal_text(process_id as u128).as_str());
    let stem = joined(joined(stem.as_str(), "-").as_str(), decimal_text(now_ms).as_str());
    joined(stem.as_str(), ".dylib")
}

/// Every launch has a path of its own: different processes or different points in
/// time give different file names.
pub proof fn law_engine_files_differ(p: u32, a: u128, q: u32, b: u128)
    requires
        p != q || a != b,
    ensures
        engine_file(p, a) != engine_file(q, b),
{
    if engine_file(p, a) == engine_file(q, b) {
        reveal_strlit("-");
        law_decimal_round_trip(p as nat);
        law_decimal_round_trip(q as nat);
        law_decimal_round_trip(a as nat);
        law_decimal_round_trip(b as nat);
        law_decimal_is_all_digits(p as nat);
        law_decimal_is_all_digits(q as nat);
        let x = engine_file(p, a);
        let n = "rp-engine-"@.len() as int;
        let i = decimal(p as nat).len() as int;
        let j = decimal(q as nat).len() as int;
        let end = x.len() - ".dylib"@.len();
        assert(x[n + i] == '-' && engine_file(q, b)[n + j] == '-');
        if i < j {
            assert(engine_file(q, b)[n + i] == decimal(q as nat)[i]);
        }
        if j < i {
            assert(x[n + j] == decimal(p as nat)[j]);
        }
        assert(i == j);
        assert(x.subrange(n, n + i) =~= decimal(p as nat));
        assert(engine_file(q, b).subrange(n, n + i) =~= decimal(q as nat));
        assert(x.subrange(n + i + 1, end) =~= decimal(a as nat));
        assert(engine_file(q, b).subrange(n + i + 1, end) =~= decimal(b as nat));
    }
}

/// A function that the engine must offer.
#[derive(Debug, Clone, Copy, PartialEq, Eq, Structural)]
pub enum Symbol {
    Alloc,
    Free,
    LastError,
    Process,
    Version,
    Run,
}

impl Symbol {
    /// The name of the function in the engine.
    pub open spec fn label(self) -> Seq<char> {
        match self {
            Symbol::Alloc => "rp_alloc"@,
            Symbol::Free => "rp_free"@,
            Symbol::LastError => "rp_last_error"@,
            Symbol::Process => "rp_process"@,
            Symbol::Version => "rp_version"@,
            Symbol::Run => "rp_run"@,
        }
    }

    /// The name of the function in the engine.
    pub fn name(&self) -> (r: &'static str)
        ensures
            r@ == self.label(),
    {
        match self {
            Symbol::Alloc => "rp_alloc",
            Symbol::Free => "rp_free",
            Symbol::LastError => "rp_last_error",
            Symbol::Process => "rp_process",
            Symbol::Version => "rp_version",
            Symbol::Run => "rp_run",
        }
    }
}

/// The functions that the engine must offer, in the order they are looked up.
pub open spec fn symbols() -> Seq<Symbol> {
    seq![
        Symbol::Alloc,
        Symbol::Free,
        Symbol::LastError,
        Symbol::Process,
        Symbol::Version,
        Symbol::Run,
    ]
}

/// What is to be done next to load an engine.
#[derive(Debug, Clone, Copy, PartialEq, Eq, Structural)]
pub enum LoadStep {
    /// Write the bytes to a file.
    WriteFile,
    /// Open the file as a library.
    OpenLibrary,
    /// Look up a function.
    FindSymbol(Symbol),
    /// Nothing: the engine can be put to use.
    Ready,
}

impl LoadStep {
    /// The step that follows one that went well.
    pub open spec fn following(self) -> LoadStep {
        match self {
            LoadStep::WriteFile => LoadStep::OpenLibrary,
            LoadStep::OpenLibrary => LoadStep::FindSymbol(Symbol::Alloc),
            LoadStep::FindSymbol(Symbol::Alloc) => LoadStep::FindSymbol(Symbol::Free),
            LoadStep::FindSymbol(Symbol::Free) => LoadStep::FindSymbol(Symbol::LastError),
            LoadStep::FindSymbol(Symbol::LastError) => LoadStep::FindSymbol(Symbol::Process),
            LoadStep::FindSymbol(Symbol::Process) => LoadStep::FindSymbol(Symbol::Version),
            LoadStep::FindSymbol(Symbol::Version) => LoadStep::FindSymbol(Symbol::Run),
            LoadStep::FindSymbol(Symbol::Run) => LoadStep::Ready,
            LoadStep::Ready => LoadStep::Ready,
        }
    }

    /// The message for a step that failed, for an engine file at `path`.
    pub open spec fn complaint(self, error: Seq<char>, path: Seq<char>) -> Seq<char> {
        match self {
            LoadStep::WriteFile => "write dylib temp"@ + ": "@ + error,
            LoadStep::OpenLibrary => "dlopen failed"@ + ": "@ + (error + " (path: "@ + path
                + ")"@),
            LoadStep::FindSymbol(symbol) => symbol.label() + ": "@ + error,
            LoadStep::Ready => Seq::empty(),
        }
    }
}

/// Why an engine could not be loaded.
#[derive(Debug)]
pub struct LoadFailure {
    /// What to answer.
    pub reply: HttpError,
    /// Whether the engine file is to be removed at once.
    pub discard_file: bool,
}

/// Goes from one step of loading to the next, by how the step went. A step that
/// failed ends the loading; a file that is no library is removed at once.
pub fn advance(step: LoadStep, outcome: &Result<(), String>, path: &str) -> (r: Result<
    LoadStep,
    LoadFailure,
>)
    ensures
        step == LoadStep::Ready || outcome is Ok ==> r == Ok::<LoadStep, LoadFailure>(
            step.following(),
        ),
        step != LoadStep::Ready ==> (outcome matches Err(error) ==> r matches Err(failure)
            && failure.reply@ == (Status::InternalServerError, step.complaint(error@, path@))
            && failure.discard_file == (step == LoadStep::OpenLibrary)),
        (outcome matches Err(error) ==> step != LoadStep::Ready ==> {
            &&& r is Err
            &&& r->Err_0.reply.status == Status::InternalServerError
            &&& r->Err_0.reply.message@ == (match step {
                LoadStep::WriteFile => "write dylib temp"@ + ": "@ + error@,
                LoadStep::OpenLibrary => "dlopen failed"@ + ": "@ + (error@ + " (path: "@ + path@
                    + ")"@),
                LoadStep::FindSymbol(Symbol::Alloc) => "rp_alloc"@ + ": "@ + error@,
                LoadStep::FindSymbol(Symbol::Free) => "rp_free"@ + ": "@ + error@,
                LoadStep::FindSymbol(Symbol::LastError) => "rp_last_error"@ + ": "@ + error@,
                LoadStep::FindSymbol(Symbol::Process) => "rp_process"@ + ": "@ + error@,
                LoadStep::FindSymbol(Symbol::Version) => "rp_version"@ + ": "@ + error@,
                LoadStep::FindSymbol(Symbol::Run) => "rp_run"@ + ": "@ + error@,
                LoadStep::Ready => Seq::empty(),
            })
        }),
{
    match outcome {
        Ok(()) => {
            let next = match step {
                LoadStep::WriteFile => LoadStep::OpenLibrary,
                LoadStep::OpenLibrary => LoadStep::FindSymbol(Symbol::Alloc),
                LoadStep::FindSymbol(Symbol::Alloc) => LoadStep::FindSymbol(Symbol::Free),
                LoadStep::FindSymbol(Symbol::Free) => LoadStep::FindSymbol(Symbol::LastError),
                LoadStep::FindSymbol(Symbol::LastError) => LoadStep::FindSymbol(Symbol::Process),
                LoadStep::FindSymbol(Symbol::Process) => LoadStep::FindSymbol(Symbol::Version),
                LoadStep::FindSymbol(Symbol::Version) => LoadStep::FindSymbol(Symbol::Run),
                LoadStep::FindSymbol(Symbol::Run) => LoadStep::Ready,
                LoadStep::Ready => LoadStep::Ready,
            };
            Ok(next)
        },
        Err(error) => match step {
            LoadStep::WriteFile => Err(
                LoadFailure {
                    reply: internal_error("write dylib temp", error.as_str()),
                    discard_file: false,
                },
            ),
            LoadStep::OpenLibrary => {
                let place = joined(joined(error.as_str(), " (path: ").as_str(), path);
                let detail = joined(place.as_str(), ")");
                Err(
                    LoadFailure {
                        reply: internal_error("dlopen failed", detail.as_str()),
                        discard_file: true,
                    },
                )
            },
            LoadStep::FindSymbol(symbol) => Err(
                LoadFailure {
                    reply: internal_error(symbol.name(), error.as_str()),
                    discard_file: false,
                },
            ),
            LoadStep::Ready => Ok(LoadStep::Ready),
        },
    }
}

/// The step that is reached after `n` steps that all went well.
pub open spec fn step_after(n: nat) -> LoadStep
    decreases n,
{
    if n == 0 {
        LoadStep::WriteFile
    } else {
        step_after((n - 1) as nat).following()
    }
}

/// An engine is ready when its file was written, opened, and offered each of the
/// functions, looked up one by one in their order, and not before.
pub proof fn law_ready_after_every_step(n: nat)
    ensures
        n == 0 ==> step_after(n) == LoadStep::WriteFile,
        n == 1 ==> step_after(n) == LoadStep::OpenLibrary,
        2 <= n < 2 + symbols().len() ==> step_after(n) == LoadStep::FindSymbol(symbols()[n - 2]),
        n >= 2 + symbols().len() ==> step_after(n) == LoadStep::Ready,
    decreases n,
{
    if n > 0 {
        law_ready_after_every_step((n - 1) as nat);
    }
}

/// A body is refused as too small with its own size in the message.
pub proof fn law_small_bodies_are_told_their_size(bytes: nat)
    ensures
        too_small(bytes) == (
            Status::BadRequest,
            "init body too small: "@ + decimal(bytes) + " bytes"@,
        ),
{
}

/// The file of the engine bears the process and the time, in that order.
pub proof fn law_engine_file_bears_process_and_time(process_id: u32, now_ms: u128)
    ensures
        engine_file(process_id, now_ms) == "rp-engine-"@ + decimal(process_id as nat) + "-"@
            + decimal(now_ms as nat) + ".dylib"@,
{
}

/// Each step that went well is followed by the next: the file is written, opened,
/// and then asked for one function after the other, each under its own name.
pub proof fn law_steps_follow_in_order()
    ensures
        LoadStep::WriteFile.following() == LoadStep::OpenLibrary,
        LoadStep::OpenLibrary.following() == LoadStep::FindSymbol(Symbol::Alloc),
        LoadStep::FindSymbol(Symbol::Alloc).following() == LoadStep::FindSymbol(Symbol::Free),
        LoadStep::FindSymbol(Symbol::Free).following() == LoadStep::FindSymbol(Symbol::LastError),
        LoadStep::FindSymbol(Symbol::LastError).following() == LoadStep::FindSymbol(
            Symbol::Process,
        ),
        LoadStep::FindSymbol(Symbol::Process).following() == LoadStep::FindSymbol(Symbol::Version),
        LoadStep::FindSymbol(Symbol::Version).following() == LoadStep::FindSymbol(Symbol::Run),
        LoadStep::FindSymbol(Symbol::Run).following() == LoadStep::Ready,
        Symbol::Alloc.label() == "rp_alloc"@,
        Symbol::Free.label() == "rp_free"@,
        Symbol::LastError.label() == "rp_last_error"@,
        Symbol::Process.label() == "rp_process"@,
        Symbol::Version.label() == "rp_version"@,
        Symbol::Run.label() == "rp_run"@,
{
}

} // verus!
