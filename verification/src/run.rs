//! The whole run as one function of its external replies.
//!
//! Every decision of a run depends only on the environment's file list and on
//! what the external commands replied.  [`run_outcome_spec`] states the final
//! notification and exit status as a mathematical function of those inputs;
//! [`run_outcome`] drives the step functions of [`crate::session`] through a
//! complete run against fixed replies and provably lands on that very value.

use vstd::prelude::*;
use vstd::utf8::decode_utf8;
use vstd::utf8::valid_utf8;

use crate::device::selected;
use crate::device::valid_device;
use crate::parser::all_lines_ok;
use crate::parser::devices_spec;
use crate::session::encoding_error_message;
use crate::session::failure_entry;
use crate::session::malformed_error_message;
use crate::session::no_devices_message;
use crate::session::no_files_message;
use crate::session::on_choice;
use crate::session::on_discovery;
use crate::session::on_transfers_done;
use crate::session::outcome_message;
use crate::session::selection_error_message;
use crate::session::start;
use crate::session::Step;
use crate::text::list_entries;
use crate::text::nonblank_lines;

verus! {

/// The failure entries a batch over `files` records when `errs` holds, per
/// file, the runner's error (or nothing, on success).
pub open spec fn failures_spec(files: Seq<Seq<char>>, errs: Seq<Option<Seq<char>>>) -> Seq<
    Seq<char>,
>
    decreases files.len(),
{
    if files.len() == 0 {
        Seq::empty()
    } else {
        (match errs[0] {
            Some(e) => seq![failure_entry(files[0], e)],
            None => Seq::empty(),
        }) + failures_spec(files.drop_first(), errs.drop_first())
    }
}

/// The image of a captured discovery reply: its bytes, or the runner's error
/// text.
pub open spec fn discovery_view(d: Result<Vec<u8>, String>) -> Result<Seq<u8>, Seq<char>> {
    match d {
        Ok(b) => Ok(b@),
        Err(s) => Err(s@),
    }
}

/// The notification and exit status of a whole run, as a function of the
/// environment's file list and of what each external command replies: the
/// file list comes from `env`, discovery replies `discovery`, the picker
/// answers `choice`, and the transfer of file `i` fails with `errs[i]` when
/// that is set.
pub open spec fn run_outcome_spec(
    env: Seq<char>,
    discovery: Result<Seq<u8>, Seq<char>>,
    choice: Option<Seq<char>>,
    errs: Seq<Option<Seq<char>>>,
) -> (Seq<char>, bool) {
    let files = nonblank_lines(env);
    if files.len() == 0 {
        (no_files_message(), true)
    } else {
        match discovery {
            Err(e) => (e, true),
            Ok(bytes) => {
                if !valid_utf8(bytes) {
                    (encoding_error_message(), true)
                } else if !all_lines_ok(decode_utf8(bytes)) {
                    (malformed_error_message(), true)
                } else {
                    let devs = devices_spec(decode_utf8(bytes));
                    if devs.len() == 0 {
                        (no_devices_message(), true)
                    } else {
                        match choice {
                            None => (selection_error_message(), true),
                            Some(c) => match selected(devs, c) {
                                None => (selection_error_message(), true),
                                Some(dv) => if !valid_device(dv) {
                                    (selection_error_message(), true)
                                } else {
                                    let failures = failures_spec(files, errs);
                                    (
                                        outcome_message(files, failures, dv.name),
                                        failures.len() > 0,
                                    )
                                },
                            },
                        }
                    }
                }
            },
        }
    }
}

/// A whole run against fixed external replies: reaches exactly the
/// notification and exit status that [`run_outcome_spec`] assigns to them.
#[verifier::loop_isolation(false)]
pub fn run_outcome(
    env: &str,
    discovery: Result<Vec<u8>, String>,
    choice: Option<String>,
    errs: Vec<Option<String>>,
) -> (r: (String, bool))
    requires
        errs.deep_view().len() == nonblank_lines(env@).len(),
    ensures
        (r.0@, r.1) == run_outcome_spec(
            env@,
            discovery_view(discovery),
            choice.deep_view(),
            errs.deep_view(),
        ),
{
    let files = list_entries(env);
    let ghost fviews = files.deep_view();
    let ghost eviews = errs.deep_view();
    match start(files) {
        Step::Finish { message, failure } => (message, failure),
        Step::Discover { files } => {
            match on_discovery(files, discovery) {
                Step::Finish { message, failure } => (message, failure),
                Step::Pick { files, devices } => {
                    match on_choice(files, devices, choice) {
                        Step::Finish { message, failure } => (message, failure),
                        Step::Transfer { mut batch } => {
                            let mut i: usize = 0;
                            let ghost dv = batch.device@;
                            proof {
                                assert(fviews.skip(0) =~~= fviews);
                                assert(eviews.skip(0) =~~= eviews);
                                assert(batch.failures.deep_view() + failures_spec(fviews, eviews)
                                    =~~= failures_spec(fviews, eviews));
                            }
                            while !batch.done()
                                invariant
                                    batch.files.deep_view() == fviews,
                                    batch.device@ == dv,
                                    i == batch.next,
                                    i <= fviews.len(),
                                    batch.failures.deep_view() + failures_spec(
                                        fviews.skip(i as int),
                                        eviews.skip(i as int),
                                    ) == failures_spec(fviews, eviews),
                                decreases fviews.len() - i,
                            {
                                let ghost frest = fviews.skip(i as int);
                                let ghost erest = eviews.skip(i as int);
                                proof {
                                    assert(frest[0] == fviews[i as int]);
                                    assert(erest[0] == eviews[i as int]);
                                    assert(frest.drop_first() =~~= fviews.skip(i + 1));
                                    assert(erest.drop_first() =~~= eviews.skip(i + 1));
                                }
                                let outcome: Result<Vec<u8>, String> = match &errs[i] {
                                    Some(e) => Err(e.clone()),
                                    None => Ok(Vec::new()),
                                };
                                let ghost before = batch.failures.deep_view();
                                batch.record(outcome);
                                proof {
                                    if eviews[i as int] is Some {
                                        assert(batch.failures.deep_view() + failures_spec(
                                            fviews.skip(i + 1),
                                            eviews.skip(i + 1),
                                        ) =~~= before + failures_spec(frest, erest));
                                    } else {
                                        assert(batch.failures.deep_view() + failures_spec(
                                            fviews.skip(i + 1),
                                            eviews.skip(i + 1),
                                        ) =~~= before + failures_spec(frest, erest));
                                    }
                                }
                                i = i + 1;
                            }
                            proof {
                                assert(fviews.skip(i as int) =~~= Seq::<Seq<char>>::empty());
                                assert(batch.failures.deep_view() + failures_spec(
                                    fviews.skip(i as int),
                                    eviews.skip(i as int),
                                ) =~~= batch.failures.deep_view());
                            }
                            match on_transfers_done(batch) {
                                Step::Finish { message, failure } => (message, failure),
                                _ => {
                                    proof {
                                        assert(false);
                                    }
                                    (String::new(), false)
                                },
                            }
                        },
                        _ => {
                            proof {
                                assert(false);
                            }
                            (String::new(), false)
                        },
                    }
                },
                _ => {
                    proof {
                        assert(false);
                    }
                    (String::new(), false)
                },
            }
        },
        _ => {
            proof {
                assert(false);
            }
            (String::new(), false)
        },
    }
}

/// With one environment and one set of deterministic external replies, a run
/// reaches exactly one notification and one exit status: re-running changes
/// nothing.
pub proof fn lemma_run_deterministic(
    env1: Seq<char>,
    discovery1: Result<Seq<u8>, Seq<char>>,
    choice1: Option<Seq<char>>,
    errs1: Seq<Option<Seq<char>>>,
    env2: Seq<char>,
    discovery2: Result<Seq<u8>, Seq<char>>,
    choice2: Option<Seq<char>>,
    errs2: Seq<Option<Seq<char>>>,
)
    requires
        env1 == env2,
        discovery1 == discovery2,
        choice1 == choice2,
        errs1 == errs2,
    ensures
        run_outcome_spec(env1, discovery1, choice1, errs1) == run_outcome_spec(
            env2,
            discovery2,
            choice2,
            errs2,
        ),
{
}

} // verus!
