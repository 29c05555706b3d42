//! The Lua execution protocol.
//!
//! A script can answer in one of two shapes.  In the simple convention it
//! sets a global `exports` string that becomes the whole body.  In the
//! structured convention it returns a table with a `run` function whose
//! multi-value result is read positionally by type: an integer sets the
//! status, a table is merged into the header map (only string/string pairs
//! are taken), and a function is a body generator — driven by the embedding
//! until it yields a non-string sentinel, its string chunks arriving here
//! as a list of byte chunks.  A Lua runtime error anywhere makes the whole
//! request fail; partial output is discarded.

use vstd::prelude::*;
use crate::common::{model_insert, table_model, HeaderTable, ResponseData, ScriptResultEvent};

verus! {

/// One value of a structured `run` result, projected to what the protocol
/// reads.
pub enum LuaValue {
    /// An integer value; sets the status code.
    Int(i64),
    /// A string value; the protocol ignores bare strings.
    Str(String),
    /// A table; its string/string pairs are merged into the header map.
    Table(Vec<LuaPair>),
    /// A function value, already driven to its chunk list: the string
    /// chunks it returned, in order, before the first non-string sentinel.
    Chunks(Vec<Vec<u8>>),
    /// A value of any other type; logged and ignored.
    Other,
}

/// One key/value pair of a returned table.
pub struct LuaPair {
    pub key: LuaValue,
    pub value: LuaValue,
}

/// The header map after merging `pairs` into `m`: each string/string pair
/// is inserted in order (later pairs replace earlier ones of the same
/// name); any other pair is skipped.
pub open spec fn merge_pairs(
    m: Seq<(Seq<char>, Seq<char>)>,
    pairs: Seq<LuaPair>,
) -> Seq<(Seq<char>, Seq<char>)>
    decreases pairs.len(),
{
    if pairs.len() == 0 {
        m
    } else {
        let rest = merge_pairs(m, pairs.drop_last());
        match pairs.last().key {
            LuaValue::Str(k) => match pairs.last().value {
                LuaValue::Str(v) => model_insert(rest, k@, v@),
                _ => rest,
            },
            _ => rest,
        }
    }
}

/// The byte concatenation of the generator's chunks.
pub open spec fn concat_chunks(cs: Seq<Seq<u8>>) -> Seq<u8>
    decreases cs.len(),
{
    if cs.len() == 0 {
        Seq::empty()
    } else {
        concat_chunks(cs.drop_last()) + cs.last()
    }
}

/// The response a structured multi-value result denotes, folded left to
/// right over the defaults `(200, no headers, empty body)`: status,
/// header model, body bytes.
pub open spec fn lua_outcome(vals: Seq<LuaValue>) -> (u16, Seq<(Seq<char>, Seq<char>)>, Seq<u8>)
    decreases vals.len(),
{
    if vals.len() == 0 {
        (200u16, Seq::empty(), Seq::empty())
    } else {
        let prev = lua_outcome(vals.drop_last());
        match vals.last() {
            LuaValue::Int(i) => (i as u16, prev.1, prev.2),
            LuaValue::Table(pairs) => (prev.0, merge_pairs(prev.1, pairs@), prev.2),
            LuaValue::Chunks(chunks) => (prev.0, prev.1, concat_chunks(chunks.deep_view())),
            LuaValue::Str(_) => prev,
            LuaValue::Other => prev,
        }
    }
}

/// Builds the response for one structured multi-value result.
pub fn build_lua_response(values: Vec<LuaValue>) -> (r: ResponseData)
    ensures
        r.headers.wf(),
        r.status == lua_outcome(values@).0,
        table_model(r.headers.entries@) == lua_outcome(values@).1,
        r.body@ == lua_outcome(values@).2,
{
    let mut status: u16 = 200;
    let mut table = HeaderTable::new();
    let mut body: Vec<u8> = Vec::new();
    let n = values.len();
    let mut i: usize = 0;
    proof {
        assert(values@.take(0) =~= Seq::<LuaValue>::empty());
        assert(table_model(table.entries@) =~= lua_outcome(values@.take(0)).1);
        assert(body@ =~= lua_outcome(values@.take(0)).2);
    }
    while i < n
        invariant
            0 <= i <= n,
            n == values@.len(),
            table.wf(),
            status == lua_outcome(values@.take(i as int)).0,
            table_model(table.entries@) == lua_outcome(values@.take(i as int)).1,
            body@ == lua_outcome(values@.take(i as int)).2,
        decreases n - i,
    {
        proof {
            assert(values@.take(i + 1).drop_last() =~= values@.take(i as int));
            assert(values@.take(i + 1).last() == values@[i as int]);
        }
        match &values[i] {
            LuaValue::Int(v) => {
                status = #[verifier::truncate] (*v as u16);
            },
            LuaValue::Table(pairs) => {
                merge_table(&mut table, pairs);
            },
            LuaValue::Chunks(chunks) => {
                body = collect_chunks(chunks);
            },
            LuaValue::Str(_) => {},
            LuaValue::Other => {},
        }
        i = i + 1;
    }
    proof {
        assert(values@.take(n as int) =~= values@);
    }
    ResponseData { status, headers: table, body }
}

/// Merges the string/string pairs of one returned table into the header
/// map, in order.
fn merge_table(table: &mut HeaderTable, pairs: &Vec<LuaPair>)
    requires
        old(table).wf(),
    ensures
        final(table).wf(),
        table_model(final(table).entries@) == merge_pairs(
            table_model(old(table).entries@),
            pairs@,
        ),
{
    let ghost base = table_model(old(table).entries@);
    let n = pairs.len();
    let mut i: usize = 0;
    proof {
        assert(pairs@.take(0) =~= Seq::<LuaPair>::empty());
    }
    while i < n
        invariant
            0 <= i <= n,
            n == pairs@.len(),
            table.wf(),
            table_model(table.entries@) == merge_pairs(base, pairs@.take(i as int)),
            base == table_model(old(table).entries@),
        decreases n - i,
    {
        proof {
            assert(pairs@.take(i + 1).drop_last() =~= pairs@.take(i as int));
            assert(pairs@.take(i + 1).last() == pairs@[i as int]);
        }
        match &pairs[i].key {
            LuaValue::Str(k) => {
                match &pairs[i].value {
                    LuaValue::Str(v) => {
                        table.insert(k.clone(), v.clone());
                    },
                    _ => {},
                }
            },
            _ => {},
        }
        i = i + 1;
    }
    proof {
        assert(pairs@.take(n as int) =~= pairs@);
    }
}

/// Concatenates the generator's chunks into one body.
fn collect_chunks(chunks: &Vec<Vec<u8>>) -> (r: Vec<u8>)
    ensures
        r@ == concat_chunks(chunks.deep_view()),
{
    let mut out: Vec<u8> = Vec::new();
    let n = chunks.len();
    let mut i: usize = 0;
    proof {
        assert(chunks.deep_view().take(0) =~= Seq::<Seq<u8>>::empty());
        assert(out@ =~= concat_chunks(chunks.deep_view().take(0)));
    }
    while i < n
        invariant
            0 <= i <= n,
            n == chunks@.len(),
            n == chunks.deep_view().len(),
            out@ == concat_chunks(chunks.deep_view().take(i as int)),
        decreases n - i,
    {
        proof {
            assert(chunks.deep_view().take(i + 1).drop_last() =~= chunks.deep_view().take(
                i as int,
            ));
            assert(chunks.deep_view().take(i + 1).last() == chunks.deep_view()[i as int]);
            assert(chunks.deep_view()[i as int] == chunks@[i as int]@);
        }
        let m = chunks[i].len();
        let mut j: usize = 0;
        let ghost mid = out@;
        while j < m
            invariant
                0 <= j <= m,
                0 <= i < n,
                n == chunks@.len(),
                m == chunks@[i as int]@.len(),
                out@ == mid + chunks@[i as int]@.take(j as int),
            decreases m - j,
        {
            out.push(chunks[i][j]);
            proof {
                assert(chunks@[i as int]@.take(j + 1) =~= chunks@[i as int]@.take(j as int).push(
                    chunks@[i as int]@[j as int],
                ));
                assert(out@ =~= mid + chunks@[i as int]@.take(j + 1));
            }
            j = j + 1;
        }
        proof {
            assert(chunks@[i as int]@.take(m as int) =~= chunks@[i as int]@);
            assert(out@ =~= concat_chunks(chunks.deep_view().take(i + 1)));
        }
        i = i + 1;
    }
    proof {
        assert(chunks.deep_view().take(n as int) =~= chunks.deep_view());
    }
    out
}

/// The worker's event loop, on the values the VM produced: each run is
/// handled fully before the next, in arrival order, and yields exactly
/// one reply — a response built by the structured protocol, or its error
/// tagged with the engine's marker.  The thread and channels around this
/// stand with the embedding; they add queueing, not reordering.
pub fn lua_worker_batch(runs: Vec<Result<Vec<LuaValue>, String>>) -> (replies: Vec<
    ScriptResultEvent,
>)
    ensures
        replies@.len() == runs@.len(),
        forall|i: int|
            0 <= i < runs@.len() ==> match #[trigger] runs@[i] {
                Ok(vals) => match replies@[i].result {
                    Ok(resp) => {
                        &&& resp.headers.wf()
                        &&& resp.status == lua_outcome(vals@).0
                        &&& table_model(resp.headers.entries@) == lua_outcome(vals@).1
                        &&& resp.body@ == lua_outcome(vals@).2
                    },
                    Err(_) => false,
                },
                Err(e) => match replies@[i].result {
                    Ok(_) => false,
                    Err(msg) => msg@ == "[LUA] "@ + e@,
                },
            },
{
    let mut replies: Vec<ScriptResultEvent> = Vec::new();
    let mut rest = runs;
    let ghost orig = rest@;
    let n = rest.len();
    let mut i: usize = 0;
    while i < n
        invariant
            0 <= i <= n,
            orig == runs@,
            n == orig.len(),
            rest@ == orig.subrange(i as int, n as int),
            replies@.len() == i,
            forall|j: int|
                0 <= j < i ==> match #[trigger] orig[j] {
                    Ok(vals) => match replies@[j].result {
                        Ok(resp) => {
                            &&& resp.headers.wf()
                            &&& resp.status == lua_outcome(vals@).0
                            &&& table_model(resp.headers.entries@) == lua_outcome(vals@).1
                            &&& resp.body@ == lua_outcome(vals@).2
                        },
                        Err(_) => false,
                    },
                    Err(e) => match replies@[j].result {
                        Ok(_) => false,
                        Err(msg) => msg@ == "[LUA] "@ + e@,
                    },
                },
        decreases n - i,
    {
        proof {
            assert(rest@[0] == orig[i as int]);
        }
        let run = rest.remove(0);
        let result = match run {
            Ok(vals) => Ok(build_lua_response(vals)),
            Err(e) => Err(lua_error_message(&e)),
        };
        replies.push(ScriptResultEvent { result });
        i = i + 1;
    }
    replies
}

/// The body the simple convention yields: the global `exports` string, or
/// the empty string when the script did not set it.
pub fn simple_response(exports: Option<String>) -> (r: String)
    ensures
        match exports {
            Some(s) => r@ == s@,
            None => r@.len() == 0,
        },
{
    match exports {
        Some(s) => s,
        None => String::new(),
    }
}

/// Tags a Lua runtime error with the engine's marker, as the worker sends
/// it on the reply channel.
pub fn lua_error_message(error: &String) -> (r: String)
    ensures
        r@ == "[LUA] "@ + error@,
{
    let mut out = String::from_str("[LUA] ");
    out.append(error.as_str());
    assert(out@ =~= "[LUA] "@ + error@);
    out
}

} // verus!
