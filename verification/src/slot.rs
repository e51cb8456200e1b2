//! The place of the loaded engine: what an attempt to load one leaves there and
//! is answered, and what the health endpoint says of it.

use crate::engine::{check_engine_size, too_small, MIN_ENGINE_BYTES};
use crate::fingerprint::{fingerprint, fingerprint_of};
use crate::http::{HttpError, Status};
use crate::text::{decimal, optional_text};
use vstd::prelude::*;
use vstd::string::*;

verus! {

/// What is kept of a loaded engine.
#[derive(Debug)]
pub struct EngineInfo {
    pub version: String,
    pub loaded_at_ms: u128,
    pub dylib_path: String,
    pub fingerprint: String,
}

/// What the record of an engine says.
#[verifier::ext_equal]
pub struct EngineView {
    pub version: Seq<char>,
    pub loaded_at_ms: u128,
    pub dylib_path: Seq<char>,
    pub fingerprint: Seq<char>,
}

impl View for EngineInfo {
    type V = EngineView;

    open spec fn view(&self) -> EngineView {
        EngineView {
            version: self.version@,
            loaded_at_ms: self.loaded_at_ms,
            dylib_path: self.dylib_path@,
            fingerprint: self.fingerprint@,
        }
    }
}

/// The place of the loaded engine, which is empty when a session starts.
#[derive(Debug)]
pub struct EngineSlot {
    info: Option<EngineInfo>,
}

impl View for EngineSlot {
    type V = Option<EngineView>;

    closed spec fn view(&self) -> Option<EngineView> {
        match self.info {
            Some(info) => Some(info@),
            None => None,
        }
    }
}

impl EngineSlot {
    /// A place without an engine.
    pub fn new() -> (r: EngineSlot)
        ensures
            r@ is None,
    {
        EngineSlot { info: None }
    }

    /// Whether there is an engine.
    pub fn is_loaded(&self) -> (r: bool)
        ensures
            r == (self@ is Some),
    {
        self.info.is_some()
    }

    /// Puts an engine in place, instead of an earlier one.
    pub fn install(&mut self, info: EngineInfo)
        ensures
            final(self)@ == Some(info@),
            final(self)@ == Some(
                (EngineView {
                    version: info.version@,
                    loaded_at_ms: info.loaded_at_ms,
                    dylib_path: info.dylib_path@,
                    fingerprint: info.fingerprint@,
                }),
            ),
    {
        self.info = Some(info);
    }
}

/// What the health endpoint answers.
#[derive(Debug)]
pub struct HealthResponse {
    pub status: String,
    pub helper_version: String,
    pub engine_loaded: bool,
    pub engine_version: Option<String>,
    pub engine_sha256: Option<String>,
    pub engine_loaded_at_ms: Option<u128>,
}

/// What a health report says.
#[verifier::ext_equal]
pub struct HealthView {
    pub status: Seq<char>,
    pub helper_version: Seq<char>,
    pub engine_loaded: bool,
    pub engine_version: Option<Seq<char>>,
    pub engine_sha256: Option<Seq<char>>,
    pub engine_loaded_at_ms: Option<u128>,
}

impl View for HealthResponse {
    type V = HealthView;

    open spec fn view(&self) -> HealthView {
        HealthView {
            status: self.status@,
            helper_version: self.helper_version@,
            engine_loaded: self.engine_loaded,
            engine_version: optional_text(self.engine_version),
            engine_sha256: optional_text(self.engine_sha256),
            engine_loaded_at_ms: self.engine_loaded_at_ms,
        }
    }
}

/// The health report of a helper with the given engine.
pub open spec fn health(engine: Option<EngineView>, helper_version: Seq<char>) -> HealthView {
    match engine {
        Some(e) => HealthView {
            status: "ok"@,
            helper_version,
            engine_loaded: true,
            engine_version: Some(e.version),
            engine_sha256: Some(e.fingerprint),
            engine_loaded_at_ms: Some(e.loaded_at_ms),
        },
        None => HealthView {
            status: "no_engine"@,
            helper_version,
            engine_loaded: false,
            engine_version: None,
            engine_sha256: None,
            engine_loaded_at_ms: None,
        },
    }
}

/// Says that the helper is alive, and which engine it has.
pub fn healthz(slot: &EngineSlot, helper_version: &str) -> (r: HealthResponse)
    ensures
        r@ == health(slot@, helper_version@),
        r.helper_version@ == helper_version@,
        r.engine_loaded == (slot@ is Some),
        match slot@ {
            Some(e) => {
                &&& r.status@ == "ok"@
                &&& r.engine_version is Some
                &&& r.engine_version->0@ == e.version
                &&& r.engine_sha256 is Some
                &&& r.engine_sha256->0@ == e.fingerprint
                &&& r.engine_loaded_at_ms == Some(e.loaded_at_ms)
            },
            None => {
                &&& r.status@ == "no_engine"@
                &&& r.engine_version is None
                &&& r.engine_sha256 is None
                &&& r.engine_loaded_at_ms is None
            },
        },
{
    match &slot.info {
        Some(e) => HealthResponse {
            status: "ok".to_owned(),
            helper_version: helper_version.to_owned(),
            engine_loaded: true,
            engine_version: Some(e.version.clone()),
            engine_sha256: Some(e.fingerprint.clone()),
            engine_loaded_at_ms: Some(e.loaded_at_ms),
        },
        None => HealthResponse {
            status: "no_engine".to_owned(),
            helper_version: helper_version.to_owned(),
            engine_loaded: false,
            engine_version: None,
            engine_sha256: None,
            engine_loaded_at_ms: None,
        },
    }
}

/// What is known of an engine once every step of loading it went well.
#[derive(Debug)]
pub struct OpenedEngine {
    pub version: String,
    pub dylib_path: String,
    pub loaded_at_ms: u128,
}

/// What the record of an opened engine says.
#[verifier::ext_equal]
pub struct OpenedView {
    pub version: Seq<char>,
    pub dylib_path: Seq<char>,
    pub loaded_at_ms: u128,
}

impl View for OpenedEngine {
    type V = OpenedView;

    open spec fn view(&self) -> OpenedView {
        OpenedView {
            version: self.version@,
            dylib_path: self.dylib_path@,
            loaded_at_ms: self.loaded_at_ms,
        }
    }
}

/// What is answered when an engine was loaded.
#[derive(Debug)]
pub struct InitResponse {
    pub ok: bool,
    pub engine_version: String,
    pub sha256: String,
    pub bytes: usize,
}

/// What the answer to a load says.
#[verifier::ext_equal]
pub struct InitView {
    pub ok: bool,
    pub engine_version: Seq<char>,
    pub sha256: Seq<char>,
    pub bytes: nat,
}

impl View for InitResponse {
    type V = InitView;

    open spec fn view(&self) -> InitView {
        InitView {
            ok: self.ok,
            engine_version: self.engine_version@,
            sha256: self.sha256@,
            bytes: self.bytes as nat,
        }
    }
}

/// An attempt to load an engine: the bytes that were sent, and how the steps of
/// loading them went.
pub struct LoadAttempt {
    pub body: Seq<u8>,
    pub steps: Result<OpenedView, (Status, Seq<char>)>,
}

impl LoadAttempt {
    /// What is answered.
    pub open spec fn answer(self, big_endian: bool) -> Result<InitView, (Status, Seq<char>)> {
        if self.body.len() < MIN_ENGINE_BYTES {
            Err(too_small(self.body.len()))
        } else {
            match self.steps {
                Ok(opened) => Ok(
                    InitView {
                        ok: true,
                        engine_version: opened.version,
                        sha256: fingerprint_of(self.body, big_endian),
                        bytes: self.body.len(),
                    },
                ),
                Err(refusal) => Err(refusal),
            }
        }
    }

    /// The engine that is in place afterwards: the new one, or the one before
    /// where the attempt failed.
    pub open spec fn engine_after(
        self,
        before: Option<EngineView>,
        big_endian: bool,
    ) -> Option<EngineView> {
        match (self.answer(big_endian), self.steps) {
            (Ok(answer), Ok(opened)) => Some(
                EngineView {
                    version: opened.version,
                    loaded_at_ms: opened.loaded_at_ms,
                    dylib_path: opened.dylib_path,
                    fingerprint: answer.sha256,
                },
            ),
            _ => before,
        }
    }
}

/// The steps of loading, as an attempt records them.
pub open spec fn steps_view(steps: Result<OpenedEngine, HttpError>) -> Result<
    OpenedView,
    (Status, Seq<char>),
> {
    match steps {
        Ok(opened) => Ok(opened@),
        Err(refusal) => Err(refusal@),
    }
}

/// The answer that a `Result` of a load stands for.
pub open spec fn answer_view(answer: Result<InitResponse, HttpError>) -> Result<
    InitView,
    (Status, Seq<char>),
> {
    match answer {
        Ok(response) => Ok(response@),
        Err(refusal) => Err(refusal@),
    }
}

/// Concludes an attempt to load an engine, on a machine of the given byte order:
/// puts the engine in place where every step went well, and says what to answer.
pub fn init_engine(
    slot: &mut EngineSlot,
    body: &[u8],
    big_endian: bool,
    steps: Result<OpenedEngine, HttpError>,
) -> (r: Result<InitResponse, HttpError>)
    ensures
        answer_view(r) == (LoadAttempt { body: body@, steps: steps_view(steps) }).answer(
            big_endian,
        ),
        final(slot)@ == (LoadAttempt { body: body@, steps: steps_view(steps) }).engine_after(
            old(slot)@,
            big_endian,
        ),
        body@.len() < 1000 ==> {
            &&& r is Err
            &&& r->Err_0.status == Status::BadRequest
            &&& r->Err_0.message@ == "init body too small: "@ + decimal(body@.len()) + " bytes"@
            &&& final(slot)@ == old(slot)@
        },
        body@.len() >= 1000 ==> match steps {
            Ok(opened) => {
                &&& r is Ok
                &&& r->Ok_0.ok
                &&& r->Ok_0.engine_version@ == opened.version@
                &&& r->Ok_0.sha256@ == fingerprint_of(body@, big_endian)
                &&& r->Ok_0.bytes == body@.len()
                &&& final(slot)@ == Some(
                    (EngineView {
                        version: opened.version@,
                        loaded_at_ms: opened.loaded_at_ms,
                        dylib_path: opened.dylib_path@,
                        fingerprint: fingerprint_of(body@, big_endian),
                    }),
                )
            },
            Err(refusal) => {
                &&& r is Err
                &&& r->Err_0.status == refusal.status
                &&& r->Err_0.message@ == refusal.message@
                &&& final(slot)@ == old(slot)@
            },
        },
{
    match check_engine_size(body.len()) {
        Ok(()) => {},
        Err(refusal) => {
            return Err(refusal);
        },
    }
    match steps {
        Ok(opened) => {
            let print = fingerprint(body, big_endian);
            let response = InitResponse {
                ok: true,
                engine_version: opened.version.clone(),
                sha256: print.clone(),
                bytes: body.len(),
            };
            slot.install(
                EngineInfo {
                    version: opened.version,
                    loaded_at_ms: opened.loaded_at_ms,
                    dylib_path: opened.dylib_path,
                    fingerprint: print,
                },
            );
            Ok(response)
        },
        Err(refusal) => Err(refusal),
    }
}

/// The engine that is in place after a number of attempts, one after the other.
pub open spec fn engine_after_all(
    before: Option<EngineView>,
    attempts: Seq<LoadAttempt>,
    big_endian: bool,
) -> Option<EngineView>
    decreases attempts.len(),
{
    if attempts.len() == 0 {
        before
    } else {
        attempts.last().engine_after(
            engine_after_all(before, attempts.drop_last(), big_endian),
            big_endian,
        )
    }
}

/// The same bytes are answered with the same fingerprint and the same size,
/// whenever they are sent, whatever was loaded before, and however the steps of
/// loading them differ, so long as they go well.
pub proof fn law_equal_engines_are_answered_alike(
    a: LoadAttempt,
    b: LoadAttempt,
    big_endian: bool,
)
    requires
        a.body == b.body,
    ensures
        a.answer(big_endian) matches Ok(first) ==> b.answer(big_endian) matches Ok(second) ==> {
            &&& first.sha256 == second.sha256
            &&& first.bytes == second.bytes
        },
{
}

/// Attempts that fail leave the engine in place that was there before them.
pub proof fn law_failed_loads_change_nothing(
    before: Option<EngineView>,
    attempts: Seq<LoadAttempt>,
    big_endian: bool,
)
    requires
        forall|i: int| 0 <= i < attempts.len() ==> (#[trigger] attempts[i]).answer(big_endian) is Err,
    ensures
        engine_after_all(before, attempts, big_endian) == before,
    decreases attempts.len(),
{
    if attempts.len() > 0 {
        assert forall|i: int| 0 <= i < attempts.drop_last().len() implies (
        #[trigger] attempts.drop_last()[i]).answer(big_endian) is Err by {
            assert(attempts.drop_last()[i] == attempts[i]);
        }
        law_failed_loads_change_nothing(before, attempts.drop_last(), big_endian);
        assert(attempts[attempts.len() - 1].answer(big_endian) is Err);
    }
}

/// Once an engine is in place, no attempt leaves the helper without one.
pub proof fn law_a_loaded_engine_is_never_unloaded(
    before: Option<EngineView>,
    attempts: Seq<LoadAttempt>,
    big_endian: bool,
)
    requires
        before is Some,
    ensures
        engine_after_all(before, attempts, big_endian) is Some,
    decreases attempts.len(),
{
    if attempts.len() > 0 {
        law_a_loaded_engine_is_never_unloaded(before, attempts.drop_last(), big_endian);
    }
}

/// The health report is that of the last attempt that went well, however many
/// failed after it: it names the version and the fingerprint that were answered,
/// and the time at which the engine was loaded.
pub proof fn law_health_reports_the_last_good_load(
    before: Option<EngineView>,
    attempts: Seq<LoadAttempt>,
    k: int,
    helper_version: Seq<char>,
    big_endian: bool,
)
    requires
        0 <= k < attempts.len(),
        attempts[k].answer(big_endian) is Ok,
        forall|i: int|
            k < i < attempts.len() ==> (#[trigger] attempts[i]).answer(big_endian) is Err,
    ensures
        ({
            let report = health(engine_after_all(before, attempts, big_endian), helper_version);
            &&& report.status == "ok"@
            &&& report.engine_loaded
            &&& report.engine_version == Some(attempts[k].answer(big_endian)->Ok_0.engine_version)
            &&& report.engine_sha256 == Some(attempts[k].answer(big_endian)->Ok_0.sha256)
            &&& report.engine_loaded_at_ms == Some(attempts[k].steps->Ok_0.loaded_at_ms)
        }),
    decreases attempts.len(),
{
    if k < attempts.len() - 1 {
        assert(attempts[attempts.len() - 1].answer(big_endian) is Err);
        assert(attempts.drop_last()[k] == attempts[k]);
        assert forall|i: int| k < i < attempts.drop_last().len() implies (
        #[trigger] attempts.drop_last()[i]).answer(big_endian) is Err by {
            assert(attempts.drop_last()[i] == attempts[i]);
        }
        law_health_reports_the_last_good_load(
            before,
            attempts.drop_last(),
            k,
            helper_version,
            big_endian,
        );
    }
}

/// Bytes that are not too few and whose steps all went well are loaded, whatever
/// was there before: the answer bears the version, the fingerprint and the size,
/// and the engine in place is that one, with its path and the time of its load.
pub proof fn law_good_load_succeeds(
    body: Seq<u8>,
    opened: OpenedView,
    before: Option<EngineView>,
    big_endian: bool,
)
    requires
        body.len() >= 1000,
    ensures
        ({
            let attempt = LoadAttempt { body, steps: Ok(opened) };
            &&& attempt.answer(big_endian) is Ok
            &&& attempt.answer(big_endian)->Ok_0.ok
            &&& attempt.answer(big_endian)->Ok_0.engine_version == opened.version
            &&& attempt.answer(big_endian)->Ok_0.sha256 == fingerprint_of(body, big_endian)
            &&& attempt.answer(big_endian)->Ok_0.bytes == body.len()
            &&& attempt.engine_after(before, big_endian) is Some
            &&& attempt.engine_after(before, big_endian)->0.version == opened.version
            &&& attempt.engine_after(before, big_endian)->0.dylib_path == opened.dylib_path
            &&& attempt.engine_after(before, big_endian)->0.loaded_at_ms == opened.loaded_at_ms
            &&& attempt.engine_after(before, big_endian)->0.fingerprint == fingerprint_of(
                body,
                big_endian,
            )
        }),
{
}

/// Bytes that are too few are refused with their size, and bytes of which a step
/// of loading failed with that step's refusal; either way the engine before
/// stays.
pub proof fn law_bad_load_is_refused(
    attempt: LoadAttempt,
    before: Option<EngineView>,
    big_endian: bool,
)
    requires
        attempt.body.len() < 1000 || attempt.steps is Err,
    ensures
        attempt.answer(big_endian) is Err,
        attempt.body.len() < 1000 ==> attempt.answer(big_endian)->Err_0 == (
            Status::BadRequest,
            "init body too small: "@ + decimal(attempt.body.len()) + " bytes"@,
        ),
        attempt.body.len() >= 1000 ==> attempt.answer(big_endian)->Err_0 == attempt.steps->Err_0,
        attempt.engine_after(before, big_endian) == before,
{
}

/// One more attempt acts on what the attempts before it left in place.
pub proof fn law_attempts_follow_one_another(
    before: Option<EngineView>,
    attempts: Seq<LoadAttempt>,
    attempt: LoadAttempt,
    big_endian: bool,
)
    ensures
        engine_after_all(before, Seq::empty(), big_endian) == before,
        engine_after_all(before, attempts.push(attempt), big_endian) == attempt.engine_after(
            engine_after_all(before, attempts, big_endian),
            big_endian,
        ),
{
    assert(attempts.push(attempt).drop_last() =~= attempts);
}

/// The health report says of the engine what is on record of it, and of no engine
/// that there is none; the helper's version is given either way.
pub proof fn law_health_is_that_of_the_engine(
    engine: Option<EngineView>,
    helper_version: Seq<char>,
)
    ensures
        health(engine, helper_version).helper_version == helper_version,
        health(engine, helper_version).engine_loaded == (engine is Some),
        engine is Some ==> {
            &&& health(engine, helper_version).status == "ok"@
            &&& health(engine, helper_version).engine_version == Some(engine->0.version)
            &&& health(engine, helper_version).engine_sha256 == Some(engine->0.fingerprint)
            &&& health(engine, helper_version).engine_loaded_at_ms == Some(engine->0.loaded_at_ms)
        },
        engine is None ==> {
            &&& health(engine, helper_version).status == "no_engine"@
            &&& health(engine, helper_version).engine_version is None
            &&& health(engine, helper_version).engine_sha256 is None
            &&& health(engine, helper_version).engine_loaded_at_ms is None
        },
{
}

/// Each record stands for all of its own fields.
pub proof fn law_records_are_their_fields(
    info: EngineInfo,
    opened: OpenedEngine,
    response: InitResponse,
)
    ensures
        info@.version == info.version@ && info@.loaded_at_ms == info.loaded_at_ms
            && info@.dylib_path == info.dylib_path@ && info@.fingerprint == info.fingerprint@,
        opened@.version == opened.version@ && opened@.dylib_path == opened.dylib_path@
            && opened@.loaded_at_ms == opened.loaded_at_ms,
        response@.ok == response.ok && response@.engine_version == response.engine_version@
            && response@.sha256 == response.sha256@ && response@.bytes == response.bytes,
{
}

} // verus!
