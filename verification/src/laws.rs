use vstd::prelude::*;

use crate::codec::{dec_spec, enc, lemma_round_trip};
use crate::port::{CommandModel, ParamModel, first_missing_spec};
use crate::ports::{clipboard, input, mail, notify, screenshot, windows};
use crate::registry::PortKind;

verus! {

/// The schema of the port a registered name constructs.
pub open spec fn spec_schema_of(k: PortKind) -> Seq<CommandModel> {
    match k {
        PortKind::Clipboard => clipboard::spec_schema(),
        PortKind::Input => input::spec_schema(),
        PortKind::Mail => mail::spec_schema(),
        PortKind::Notify => notify::spec_schema(),
        PortKind::Screenshot => screenshot::spec_schema(),
        PortKind::Windows => windows::spec_schema(),
    }
}

/// Every registered name opens onto a port with a non-empty schema.
/// The schemas are fixed mathematical constants, and each port's
/// `commands` function is proved to return exactly its schema, so what
/// a port reports can neither be empty nor drift between reads.
pub proof fn lemma_registered_schema_nonempty(k: PortKind)
    ensures
        spec_schema_of(k).len() > 0,
{
}

/// Argument validation is exact: it passes exactly when every required
/// parameter is bound, and when it fails it names a required parameter
/// that is not bound. A call that binds every required parameter can
/// therefore never be rejected for a missing argument.
pub proof fn lemma_required_args(params: Seq<ParamModel>, args: Map<Seq<char>, Seq<char>>)
    ensures
        first_missing_spec(params, args) is None <==> (forall|i: int|
            0 <= i < params.len() && params[i].required ==> args.contains_key(
                #[trigger] params[i].name,
            )),
        first_missing_spec(params, args) matches Some(p) ==> exists|i: int|
            0 <= i < params.len() && (#[trigger] params[i]).required && !args.contains_key(
                params[i].name,
            ) && p == params[i].name,
    decreases params.len(),
{
    if params.len() == 0 {
    } else {
        let d = params.drop_first();
        lemma_required_args(d, args);
        assert(forall|i: int| 0 <= i < d.len() ==> #[trigger] d[i] == params[i + 1]);
        if params[0].required && !args.contains_key(params[0].name) {
            assert(!(forall|i: int|
                0 <= i < params.len() && params[i].required ==> args.contains_key(
                    #[trigger] params[i].name,
                ))) by {
                assert(0 <= 0 < params.len() && params[0].required && !args.contains_key(
                    params[0].name,
                ));
            }
        } else {
            assert(first_missing_spec(params, args) == first_missing_spec(d, args));
            if (forall|i: int|
                0 <= i < d.len() && d[i].required ==> args.contains_key(#[trigger] d[i].name)) {
                assert forall|i: int|
                    0 <= i < params.len() && params[i].required implies args.contains_key(
                    #[trigger] params[i].name,
                ) by {
                    if i > 0 {
                        assert(d[i - 1] == params[i]);
                        assert(args.contains_key(d[i - 1].name));
                    }
                }
            }
            if (forall|i: int|
                0 <= i < params.len() && params[i].required ==> args.contains_key(
                    #[trigger] params[i].name,
                )) {
                assert forall|i: int| 0 <= i < d.len() && d[i].required implies args.contains_key(
                    #[trigger] d[i].name,
                ) by {
                    assert(d[i] == params[i + 1]);
                    assert(args.contains_key(params[i + 1].name));
                }
            }
            if first_missing_spec(d, args) is Some {
                let p = first_missing_spec(d, args)->0;
                let i = choose|i: int|
                    0 <= i < d.len() && (#[trigger] d[i]).required && !args.contains_key(
                        d[i].name,
                    ) && p == d[i].name;
                assert(0 <= i + 1 < params.len() && params[i + 1].required && !args.contains_key(
                    params[i + 1].name,
                ) && p == params[i + 1].name);
            }
        }
    }
}

/// The round-trip law at the value level: the wire text of any
/// well-formed executable value decodes back to exactly that value's
/// model. This holds for strings of arbitrary text, integers across
/// their full machine range, booleans, null, and lists and objects of
/// these; well-formedness asks only what the value model's invariant
/// asks — that object keys are unique.
pub proof fn lemma_value_round_trip(v: crate::value::PortValue)
    requires
        crate::value::value_wf(v),
    ensures
        dec_spec(enc(v.model())) == Some(v.model()),
{
    crate::value::lemma_model_of_wf(v);
    lemma_round_trip(v.model());
}

} // verus!
