use vstd::prelude::*;
use vstd::string::*;

use crate::args::ArgMap;
use crate::codec::{dec_spec, enc, encode_value, decode_value};
use crate::port::{PortError, PortResult};
use crate::value::{Entry, PortValue, ValueModel};

verus! {

// ===================================================================
// Value marshaling for generic command dispatch: results cross the
// boundary as tagged wire text, arguments as a flat text-encoded
// string map.
// ===================================================================

/// The envelope a command result crosses the boundary in: a success is
/// an object with the single key `ok`, a failure an object with the
/// single key `error` holding the code and the message. The caller
/// tells the two apart by which key is present.
pub open spec fn result_model(r: PortResult) -> ValueModel {
    match r {
        Ok(v) => ValueModel::Object(seq![(seq!['o', 'k'], v.model())]),
        Err(e) => ValueModel::Object(
            seq![
                (
                    seq!['e', 'r', 'r', 'o', 'r'],
                    ValueModel::Object(
                        seq![
                            (seq!['c', 'o', 'd', 'e'], ValueModel::Int(e.code as int)),
                            (
                                seq!['m', 'e', 's', 's', 'a', 'g', 'e'],
                                ValueModel::Str(e.message@),
                            ),
                        ],
                    ),
                ),
            ],
        ),
    }
}

/// Encodes a command result as boundary text.
pub fn encode_result(r: &PortResult) -> (out: String)
    ensures
        out@ == enc(result_model(*r)),
{
    match r {
        Ok(v) => {
            let mut entries: Vec<Entry> = Vec::new();
            entries.push(Entry { key: String::from_str("ok"), value: v.dup() });
            let env = PortValue::Object(entries);
            proof {
                reveal_strlit("ok");
                assert("ok"@ =~= seq!['o', 'k']);
                assert(entries@.drop_first() =~= Seq::<Entry>::empty());
                assert(crate::value::entry_models_of(Seq::<Entry>::empty()) =~= Seq::<(
                    Seq<char>,
                    ValueModel,
                )>::empty());
                assert(crate::value::entry_models_of(entries@) =~~= seq![
                    (seq!['o', 'k'], v.model()),
                ]);
                assert(env.model() =~~= result_model(*r));
            }
            encode_value(&env)
        },
        Err(e) => {
            let mut inner: Vec<Entry> = Vec::new();
            inner.push(Entry { key: String::from_str("code"), value: PortValue::Int(e.code as i64) });
            inner.push(
                Entry { key: String::from_str("message"), value: PortValue::Str(e.message.clone()) },
            );
            let mut outer: Vec<Entry> = Vec::new();
            outer.push(Entry { key: String::from_str("error"), value: PortValue::Object(inner) });
            let env = PortValue::Object(outer);
            proof {
                reveal_strlit("code");
                reveal_strlit("message");
                reveal_strlit("error");
                assert("code"@ =~= seq!['c', 'o', 'd', 'e']);
                assert("message"@ =~= seq!['m', 'e', 's', 's', 'a', 'g', 'e']);
                assert("error"@ =~= seq!['e', 'r', 'r', 'o', 'r']);
                assert(inner@.drop_first() =~= seq![inner@[1]]);
                assert(inner@[0].key@ =~= seq!['c', 'o', 'd', 'e']);
                assert(inner@[1].key@ =~= seq!['m', 'e', 's', 's', 'a', 'g', 'e']);
                assert(crate::value::model_of(inner@[0].value) =~~= ValueModel::Int(
                    e.code as int,
                ));
                assert(crate::value::model_of(inner@[1].value) =~~= ValueModel::Str(e.message@));
                assert(seq![inner@[1]].drop_first() =~= Seq::<Entry>::empty());
                assert(crate::value::entry_models_of(Seq::<Entry>::empty()) =~= Seq::<(
                    Seq<char>,
                    ValueModel,
                )>::empty());
                assert(crate::value::entry_models_of(seq![inner@[1]]) =~~= seq![
                    (seq!['m', 'e', 's', 's', 'a', 'g', 'e'], ValueModel::Str(e.message@)),
                ]);
                assert(crate::value::entry_models_of(inner@) =~~= seq![
                    (seq!['c', 'o', 'd', 'e'], ValueModel::Int(e.code as int)),
                    (seq!['m', 'e', 's', 's', 'a', 'g', 'e'], ValueModel::Str(e.message@)),
                ]);
                assert(outer@.drop_first() =~= Seq::<Entry>::empty());
                assert(outer@[0].key@ =~= seq!['e', 'r', 'r', 'o', 'r']);
                assert(crate::value::model_of(outer@[0].value) =~~= result_model(
                    *r,
                )->Object_0[0].1);
                assert(crate::value::entry_models_of(outer@) =~~= result_model(*r)->Object_0);
                assert(env.model() =~~= result_model(*r));
            }
            encode_value(&env)
        },
    }
}

/// The mapping that a decoded argument object folds to: each entry must
/// be a string, later entries win. Any other shape folds to nothing.
pub open spec fn fold_str_entries(es: Seq<(Seq<char>, ValueModel)>) -> Option<
    Map<Seq<char>, Seq<char>>,
>
    decreases es,
{
    if es.len() == 0 {
        Some(Map::empty())
    } else {
        match fold_str_entries(es.drop_last()) {
            Some(m) => match es.last().1 {
                ValueModel::Str(sv) => Some(m.insert(es.last().0, sv)),
                _ => None,
            },
            None => None,
        }
    }
}

/// What boundary argument text decodes to: the string map it encodes,
/// or the empty map where the text is absent in spirit — not an object
/// of strings. Absence of arguments is legal; decoding never hard-fails.
pub open spec fn args_spec(s: Seq<char>) -> Map<Seq<char>, Seq<char>> {
    match dec_spec(s) {
        Some(ValueModel::Object(es)) => match fold_str_entries(es) {
            Some(m) => m,
            None => Map::empty(),
        },
        _ => Map::empty(),
    }
}

/// Decodes boundary argument text into an argument map, defaulting to
/// empty on any decode failure.
pub fn decode_args(s: &str) -> (r: ArgMap)
    ensures
        r@ == args_spec(s@),
{
    let decoded = decode_value(s);
    match decoded {
        Some(PortValue::Object(entries)) => {
            let ghost ems = crate::value::entry_models_of(entries@);
            proof {
                crate::value::lemma_entry_models_of_len(entries@);
            }
            let mut out = ArgMap::new();
            let n = entries.len();
            let mut j: usize = 0;
            while j < n
                invariant
                    j <= n,
                    n == entries@.len(),
                    ems == crate::value::entry_models_of(entries@),
                    ems.len() == n,
                    forall|k: int| 0 <= k < n ==> ems[k] == (entries@[k].key@, crate::value::model_of(
                        entries@[k].value,
                    )),
                    dec_spec(s@) == Some(ValueModel::Object(ems)),
                    fold_str_entries(ems.take(j as int)) is Some,
                    out@ == fold_str_entries(ems.take(j as int))->0,
                decreases n - j,
            {
                proof {
                    assert(ems.take(j as int + 1).drop_last() =~= ems.take(j as int));
                    assert(ems.take(j as int + 1).last() == ems[j as int]);
                }
                let e = &entries[j];
                match &e.value {
                    PortValue::Str(sv) => {
                        out.insert(e.key.clone(), sv.clone());
                    },
                    _ => {
                        proof {
                            assert(fold_str_entries(ems.take(j as int + 1)) is None);
                            lemma_fold_prefix_none(ems, j as int + 1);
                        }
                        return ArgMap::new();
                    },
                }
                j += 1;
            }
            proof {
                assert(ems.take(n as int) =~= ems);
            }
            out
        },
        _ => ArgMap::new(),
    }
}

/// Once a prefix fails to fold, the whole sequence fails to fold.
proof fn lemma_fold_prefix_none(es: Seq<(Seq<char>, ValueModel)>, k: int)
    requires
        0 <= k <= es.len(),
        fold_str_entries(es.take(k)) is None,
    ensures
        fold_str_entries(es) is None,
    decreases es.len() - k,
{
    if k == es.len() {
        assert(es.take(k) =~= es);
    } else {
        assert(es.take(k + 1).drop_last() =~= es.take(k));
        lemma_fold_prefix_none(es, k + 1);
    }
}

// ===================================================================
// Boundary status codes.
// ===================================================================

/// The status a boundary call reports: a distinct sentinel where the
/// caller passed nothing, so that "you passed me nothing" and "the
/// backend rejected this" stay apart.
pub open spec fn spec_status(present: bool, ok: bool) -> int {
    if !present {
        -2
    } else if !ok {
        -1
    } else {
        0
    }
}

/// The status code for a boundary call: `present` says the caller
/// supplied every handle and pointer, `ok` says the operation itself
/// succeeded.
pub fn status_code(present: bool, ok: bool) -> (r: i32)
    ensures
        r as int == spec_status(present, ok),
{
    if !present {
        -2
    } else if !ok {
        -1
    } else {
        0
    }
}

// ===================================================================
// Opaque handles: integer tokens standing in for owned core objects.
// Zero is the null handle and is never issued.
// ===================================================================

/// A table of owned objects behind opaque non-zero integer handles.
/// An `open` issues a fresh handle; `free` consumes it. Freeing the
/// null handle is a no-op, never an error; a stale handle is ignored.
pub struct HandleTable<T> {
    slots: Vec<Option<T>>,
}

impl<T> HandleTable<T> {
    /// The slot a handle names, if the handle is live.
    pub closed spec fn spec_slots(&self) -> Seq<Option<T>> {
        self.slots@
    }

    /// Whether a handle is live: non-null, in range, not yet freed.
    pub open spec fn spec_live(&self, h: u64) -> bool {
        1 <= h <= self.spec_slots().len() && self.spec_slots()[h - 1] is Some
    }

    /// An empty table.
    pub fn new() -> (r: HandleTable<T>)
        ensures
            r.spec_slots() == Seq::<Option<T>>::empty(),
    {
        let slots: Vec<Option<T>> = Vec::new();
        HandleTable { slots }
    }

    /// How many slots the table has issued, live or freed.
    pub fn len(&self) -> (r: usize)
        ensures
            r == self.spec_slots().len(),
    {
        self.slots.len()
    }

    /// Whether a handle names an issued slot that currently holds
    /// nothing — the state `restore` requires.
    pub fn vacant(&self, h: u64) -> (r: bool)
        ensures
            r == (1 <= h <= self.spec_slots().len() && self.spec_slots()[h - 1] is None),
    {
        if h == 0 {
            return false;
        }
        let l = self.slots.len();
        if h <= l as u64 {
            let i = (h - 1) as usize;
            self.slots[i].is_none()
        } else {
            false
        }
    }

    /// Stores `x` and issues its handle; handles are never zero.
    pub fn open(&mut self, x: T) -> (h: u64)
        requires
            old(self).spec_slots().len() < 0xFFFF_FFFFusize as int,
        ensures
            h != 0,
            final(self).spec_slots() == old(self).spec_slots().push(Some(x)),
            final(self).spec_live(h),
            h as int == old(self).spec_slots().len() + 1,
    {
        self.slots.push(Some(x));
        (self.slots.len()) as u64
    }

    /// Takes the object a handle names out of the table, leaving the
    /// handle dead. The null handle and stale handles yield nothing.
    pub fn take(&mut self, h: u64) -> (r: Option<T>)
        ensures
            old(self).spec_live(h) ==> (r == old(self).spec_slots()[h - 1]
                && final(self).spec_slots() == old(self).spec_slots().update(h - 1, None)),
            !old(self).spec_live(h) ==> (r is None
                && final(self).spec_slots() == old(self).spec_slots()),
    {
        if h == 0 {
            return None;
        }
        let l = self.slots.len();
        if h <= l as u64 {
            let i = (h - 1) as usize;
            let r = self.slots[i].take();
            proof {
                if old(self).spec_slots()[h - 1] is None {
                    assert(self.slots@ =~= old(self).slots@);
                }
            }
            r
        } else {
            None
        }
    }

    /// Puts an object back into the slot its handle names. Meant for
    /// callers that took the object out to use it.
    pub fn restore(&mut self, h: u64, x: T)
        requires
            1 <= h <= old(self).spec_slots().len(),
            old(self).spec_slots()[h - 1] is None,
        ensures
            final(self).spec_slots() == old(self).spec_slots().update(h - 1, Some(x)),
            final(self).spec_live(h),
    {
        let l = self.slots.len();
        proof {
            assert(l == old(self).spec_slots().len());
        }
        let i = (h - 1) as usize;
        let slot = &mut self.slots[i];
        *slot = Some(x);
    }

    /// Releases the handle's object, if any. Freeing the null handle is
    /// a no-op and never fails; so is freeing a stale or out-of-range
    /// handle — freeing the same live handle twice is simply the second
    /// free finding the slot already empty.
    pub fn free(&mut self, h: u64)
        ensures
            h == 0 ==> final(self).spec_slots() == old(self).spec_slots(),
            old(self).spec_live(h) ==> final(self).spec_slots() == old(self).spec_slots().update(
                h - 1,
                None,
            ),
            !old(self).spec_live(h) ==> final(self).spec_slots() == old(self).spec_slots(),
            !final(self).spec_live(h),
    {
        let _ = self.take(h);
    }
}

} // verus!
