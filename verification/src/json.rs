//! The JSON layout: the fields of a record, with its key-values and those of its diagnostics
//! gathered by key. The fields are serialised as JSON by the caller.
use vstd::prelude::*;

use crate::diagnostic::OrderedMap;
use crate::gcl::agrees;
use crate::kv::{KeyValues, ValueView};
use crate::level::Level;
use crate::record::Record;

verus! {

/// The pairs gathered by key; a later pair replaces an earlier one with the same key.
pub open spec fn gather<'a>(pairs: Seq<(Seq<char>, ValueView<'a>)>) -> Map<Seq<char>, ValueView<'a>>
    decreases pairs.len(),
{
    if pairs.len() == 0 {
        Map::empty()
    } else {
        gather(pairs.drop_last()).insert(pairs.last().0, pairs.last().1)
    }
}

/// The pairs of each collection, one collection after another.
pub open spec fn concat_pairs<'a>(kvs: Seq<KeyValues<'a>>) -> Seq<(Seq<char>, ValueView<'a>)>
    decreases kvs.len(),
{
    if kvs.len() == 0 {
        seq![]
    } else {
        concat_pairs(kvs.drop_last()) + kvs.last().entries()
    }
}

/// Adds the pairs of a collection to a map, in their order.
fn gather_into<'a>(map: &mut OrderedMap<ValueView<'a>>, kvs: &KeyValues<'a>, Ghost(
    before,
): Ghost<Seq<(Seq<char>, ValueView<'a>)>>)
    requires
        agrees(*old(map), gather(before)),
    ensures
        agrees(*final(map), gather(before + kvs.entries())),
{
    let ghost es = kvs.entries();
    let n = kvs.len();
    for i in 0..n
        invariant
            n == es.len(),
            es == kvs.entries(),
            agrees(*map, gather(before + es.take(i as int))),
    {
        let (k, v) = kvs.entry(i);
        let ghost g = gather(before + es.take(i as int));
        let ghost key = k.text();
        map.insert(k.as_str().to_owned(), v);
        proof {
            assert((before + es.take(i + 1)).drop_last() =~= before + es.take(i as int));
            assert((before + es.take(i + 1)).last() == es[i as int]);
            let ng = gather(before + es.take(i + 1));
            assert(ng == g.insert(key, v));
            assert forall|q: Seq<char>| #[trigger] map.spec_get(q) == (if ng.dom().contains(q) {
                Some(ng[q])
            } else {
                None
            }) by {
                if q != key {
                    assert(ng.dom().contains(q) == g.dom().contains(q));
                }
            }
        }
    }
    assert(es.take(n as int) =~= es);
}

/// The fields of a record in the JSON layout.
pub struct JsonFields<'a> {
    /// The level name.
    pub level: &'static str,
    /// The module path, or empty.
    pub module_name: &'a str,
    /// The source file, or empty.
    pub file: &'a str,
    /// The line, or 0.
    pub line: u32,
    /// The message.
    pub message: &'a str,
    /// The record's key-values by key.
    pub kvs: OrderedMap<ValueView<'a>>,
    /// The diagnostics' key-values by key.
    pub diags: OrderedMap<ValueView<'a>>,
}

/// A layout that formats a log record as a JSON object.
#[derive(Debug, Clone, Copy, Default)]
pub struct JsonLayout {}

impl JsonLayout {
    /// The JSON layout.
    pub fn new() -> (r: JsonLayout) {
        JsonLayout {}
    }

    /// The fields of a record with the key-values of its diagnostics.
    pub fn collect<'a, 'r>(&self, record: &'r Record<'a>, diags: &[KeyValues<'a>]) -> (r: JsonFields<'r>)
        ensures
            r.level@ == record.spec_level().spec_name(),
            r.module_name@ == (match record.spec_module_name() {
                Some(p) => p.text(),
                None => Seq::empty(),
            }),
            r.file@ == (match record.spec_file() {
                Some(f) => f.text(),
                None => Seq::empty(),
            }),
            r.line == (match record.spec_line() {
                Some(l) => l,
                None => 0,
            }),
            r.message@ == record.spec_payload().0,
            agrees(r.kvs, gather(record.spec_kvs().entries())),
            agrees(r.diags, gather(concat_pairs(diags@))),
    {
        let mut kvs: OrderedMap<ValueView<'a>> = OrderedMap::new();
        proof {
            assert(Seq::<(Seq<char>, ValueView<'a>)>::empty() + record.spec_kvs().entries() =~= record.spec_kvs().entries());
            assert(agrees(kvs, gather(Seq::<(Seq<char>, ValueView<'a>)>::empty())));
        }
        gather_into(&mut kvs, record.key_values(), Ghost(Seq::empty()));
        let mut dmap: OrderedMap<ValueView<'a>> = OrderedMap::new();
        let m = diags.len();
        assert(agrees(dmap, gather(concat_pairs(diags@.take(0)))));
        for j in 0..m
            invariant
                m == diags@.len(),
                agrees(dmap, gather(concat_pairs(diags@.take(j as int)))),
        {
            gather_into(&mut dmap, &diags[j], Ghost(concat_pairs(diags@.take(j as int))));
            assert(diags@.take(j + 1).drop_last() =~= diags@.take(j as int));
        }
        assert(diags@.take(m as int) =~= diags@);
        proof {
            reveal_strlit("");
        }
        let file: &str = match record.file() {
            Some(f) => f,
            None => "",
        };
        let module_name: &str = match record.module_name() {
            Some(p) => p,
            None => "",
        };
        let line: u32 = match record.line() {
            Some(l) => l,
            None => 0,
        };
        JsonFields {
            level: record.level().name(),
            module_name,
            file,
            line,
            message: record.payload(),
            kvs: kvs,
            diags: dmap,
        }
    }
}

} // verus!
