//! Laws of the pipeline: what the ordered probe and the normalization pass
//! guarantee on every input, stated over the mathematical models and proved
//! once and for all.

use vstd::prelude::*;
use crate::normalize::{normalize_entries_spec, normalize_kind_spec, normalize_spec,
    normalize_values_spec};
use crate::parsed::ParsedModel;
use crate::probe::{FormatCaps, ProbeError, keys_all_str, probe_spec};
use crate::raw::RawModel;
use crate::value::{KindModel, ValueModel};

verus! {

/// Every node of a canonical tree carries the given origin label.
pub open spec fn same_origin(v: ValueModel, o: Option<Seq<char>>) -> bool
    decreases v,
{
    v.origin == o && same_origin_kind(v.kind, o)
}

/// Every node below a kind carries the given origin label.
pub open spec fn same_origin_kind(k: KindModel, o: Option<Seq<char>>) -> bool
    decreases k,
{
    match k {
        KindModel::Table(es) => same_origin_entries(es, o),
        KindModel::Array(vs) => same_origin_values(vs, o),
        _ => true,
    }
}

/// Every node of every value of a sequence carries the given origin label.
pub open spec fn same_origin_values(s: Seq<ValueModel>, o: Option<Seq<char>>) -> bool
    decreases s,
{
    s.len() == 0 || (same_origin_values(s.drop_last(), o) && same_origin(s.last(), o))
}

/// Every node of every entry's value carries the given origin label.
pub open spec fn same_origin_entries(s: Seq<(Seq<char>, ValueModel)>, o: Option<Seq<char>>) -> bool
    decreases s,
{
    s.len() == 0 || (same_origin_entries(s.drop_last(), o) && same_origin(s.last().1, o))
}

/// Origin propagation: every node of a tree produced by one normalization
/// call carries the origin label passed to that call; with no label, every
/// node's origin is absent.
pub proof fn lemma_origin_propagation(origin: Option<Seq<char>>, p: ParsedModel)
    ensures
        same_origin(normalize_spec(origin, p), origin),
    decreases p, 1int,
{
    lemma_origin_propagation_kind(origin, p);
}

proof fn lemma_origin_propagation_kind(origin: Option<Seq<char>>, p: ParsedModel)
    ensures
        same_origin_kind(normalize_kind_spec(origin, p), origin),
    decreases p, 0int,
{
    match p {
        ParsedModel::Table(es) => lemma_origin_propagation_entries(origin, es),
        ParsedModel::Array(vs) => lemma_origin_propagation_values(origin, vs),
        ParsedModel::Option(o) => match o {
            Some(inner) => lemma_origin_propagation_kind(origin, *inner),
            None => {},
        },
        _ => {},
    }
}

proof fn lemma_origin_propagation_values(origin: Option<Seq<char>>, s: Seq<ParsedModel>)
    ensures
        same_origin_values(normalize_values_spec(origin, s), origin),
    decreases s, 0int,
{
    if s.len() > 0 {
        lemma_origin_propagation_values(origin, s.drop_last());
        lemma_origin_propagation(origin, s.last());
        let nvs = normalize_values_spec(origin, s);
        assert(nvs.drop_last() =~= normalize_values_spec(origin, s.drop_last()));
        assert(nvs.last() == normalize_spec(origin, s.last()));
    }
}

proof fn lemma_origin_propagation_entries(
    origin: Option<Seq<char>>,
    s: Seq<(Seq<char>, ParsedModel)>,
)
    ensures
        same_origin_entries(normalize_entries_spec(origin, s), origin),
    decreases s, 0int,
{
    if s.len() > 0 {
        lemma_origin_propagation_entries(origin, s.drop_last());
        lemma_origin_propagation(origin, s.last().1);
        let nes = normalize_entries_spec(origin, s);
        assert(nes.drop_last() =~= normalize_entries_spec(origin, s.drop_last()));
        assert(nes.last() == (s.last().0, normalize_spec(origin, s.last().1)));
    }
}

/// Normalization keeps a table's keys: the entries of a normalized table
/// stand in the same order under the same keys, so pairwise distinct keys
/// stay pairwise distinct.
pub proof fn lemma_normalize_preserves_unique(
    origin: Option<Seq<char>>,
    s: Seq<(Seq<char>, ParsedModel)>,
)
    requires
        crate::value::entries_unique(s),
    ensures
        crate::value::entries_unique(normalize_entries_spec(origin, s)),
{
    crate::normalize::lemma_normalize_entries_spec_len(origin, s);
    let n = normalize_entries_spec(origin, s);
    assert forall|i: int, j: int| 0 <= i < j < n.len() implies n[i].0 != n[j].0 by {
        crate::normalize::lemma_normalize_entries_spec_index(origin, s, i);
        crate::normalize::lemma_normalize_entries_spec_index(origin, s, j);
    }
}

/// The canonical data underlying a canonical tree, read back as an
/// intermediate value: the embedding along which normalization round-trips.
pub open spec fn embed_kind(k: KindModel) -> ParsedModel
    decreases k,
{
    match k {
        KindModel::Nil => ParsedModel::Nil,
        KindModel::Boolean(b) => ParsedModel::Boolean(b),
        KindModel::I64(v) => ParsedModel::I64(v),
        KindModel::I128(v) => ParsedModel::I128(v),
        KindModel::U64(v) => ParsedModel::U64(v),
        KindModel::U128(v) => ParsedModel::U128(v),
        KindModel::Float(bits) => ParsedModel::Float(bits),
        KindModel::Str(s) => ParsedModel::Str(s),
        KindModel::Table(es) => ParsedModel::Table(embed_entries(es)),
        KindModel::Array(vs) => ParsedModel::Array(embed_values(vs)),
    }
}

/// The embedding of a sequence of canonical values, element by element.
pub open spec fn embed_values(s: Seq<ValueModel>) -> Seq<ParsedModel>
    decreases s,
{
    if s.len() == 0 {
        Seq::empty()
    } else {
        embed_values(s.drop_last()).push(embed_kind(s.last().kind))
    }
}

/// The embedding of a sequence of canonical table entries, entry by entry.
pub open spec fn embed_entries(s: Seq<(Seq<char>, ValueModel)>) -> Seq<(Seq<char>, ParsedModel)>
    decreases s,
{
    if s.len() == 0 {
        Seq::empty()
    } else {
        embed_entries(s.drop_last()).push((s.last().0, embed_kind(s.last().1.kind)))
    }
}

/// Idempotence: normalizing the data underlying an already-canonical tree a
/// second time, with the origin label the tree already carries everywhere,
/// yields the structurally identical tree — same kinds, same key order,
/// same origin.
pub proof fn lemma_normalize_idempotent(origin: Option<Seq<char>>, v: ValueModel)
    requires
        same_origin(v, origin),
    ensures
        normalize_spec(origin, embed_kind(v.kind)) == v,
    decreases v, 1int,
{
    lemma_normalize_idempotent_kind(origin, v.kind);
}

proof fn lemma_normalize_idempotent_kind(origin: Option<Seq<char>>, k: KindModel)
    requires
        same_origin_kind(k, origin),
    ensures
        normalize_kind_spec(origin, embed_kind(k)) == k,
    decreases k, 0int,
{
    match k {
        KindModel::Table(es) => lemma_normalize_idempotent_entries(origin, es),
        KindModel::Array(vs) => lemma_normalize_idempotent_values(origin, vs),
        _ => {},
    }
}

proof fn lemma_normalize_idempotent_values(origin: Option<Seq<char>>, s: Seq<ValueModel>)
    requires
        same_origin_values(s, origin),
    ensures
        normalize_values_spec(origin, embed_values(s)) == s,
    decreases s, 0int,
{
    if s.len() == 0 {
        assert(normalize_values_spec(origin, embed_values(s)) =~= s);
    } else {
        lemma_normalize_idempotent_values(origin, s.drop_last());
        lemma_normalize_idempotent(origin, s.last());
        let e = embed_values(s);
        assert(e.drop_last() =~= embed_values(s.drop_last()));
        assert(e.last() == embed_kind(s.last().kind));
        assert(normalize_values_spec(origin, e) =~= s) by {
            assert(normalize_values_spec(origin, e) == normalize_values_spec(
                origin,
                e.drop_last(),
            ).push(normalize_spec(origin, e.last())));
            assert(normalize_spec(origin, e.last()) == s.last());
        }
    }
}

proof fn lemma_normalize_idempotent_entries(
    origin: Option<Seq<char>>,
    s: Seq<(Seq<char>, ValueModel)>,
)
    requires
        same_origin_entries(s, origin),
    ensures
        normalize_entries_spec(origin, embed_entries(s)) == s,
    decreases s, 0int,
{
    if s.len() == 0 {
        assert(normalize_entries_spec(origin, embed_entries(s)) =~= s);
    } else {
        lemma_normalize_idempotent_entries(origin, s.drop_last());
        lemma_normalize_idempotent(origin, s.last().1);
        let e = embed_entries(s);
        assert(e.drop_last() =~= embed_entries(s.drop_last()));
        assert(e.last() == (s.last().0, embed_kind(s.last().1.kind)));
        assert(normalize_entries_spec(origin, e) =~= s) by {
            assert(normalize_entries_spec(origin, e) == normalize_entries_spec(
                origin,
                e.drop_last(),
            ).push((e.last().0, normalize_spec(origin, e.last().1))));
            assert(normalize_spec(origin, e.last().1) == s.last().1);
            assert((s.last().0, s.last().1) == s.last());
        }
    }
}

/// Scalar width and signedness preservation: a scalar committed by the probe
/// and lowered by normalization keeps its variant exactly; in particular an
/// unsigned 64-bit input is never re-typed as a float or as any signed
/// width.
pub proof fn lemma_scalar_width_preserved(
    caps: FormatCaps,
    origin: Option<Seq<char>>,
    u: u64,
    uu: u128,
    v: i64,
    vv: i128,
    bits: u64,
)
    ensures
        probe_spec(caps, RawModel::U64(u)) == Ok::<ParsedModel, ProbeError>(ParsedModel::U64(u)),
        normalize_spec(origin, ParsedModel::U64(u)).kind == KindModel::U64(u),
        probe_spec(caps, RawModel::U128(uu)) == Ok::<ParsedModel, ProbeError>(
            ParsedModel::U128(uu),
        ),
        normalize_spec(origin, ParsedModel::U128(uu)).kind == KindModel::U128(uu),
        probe_spec(caps, RawModel::I64(v)) == Ok::<ParsedModel, ProbeError>(ParsedModel::I64(v)),
        normalize_spec(origin, ParsedModel::I64(v)).kind == KindModel::I64(v),
        probe_spec(caps, RawModel::I128(vv)) == Ok::<ParsedModel, ProbeError>(
            ParsedModel::I128(vv),
        ),
        normalize_spec(origin, ParsedModel::I128(vv)).kind == KindModel::I128(vv),
        probe_spec(caps, RawModel::Float(bits)) == Ok::<ParsedModel, ProbeError>(
            ParsedModel::Float(bits),
        ),
        normalize_spec(origin, ParsedModel::Float(bits)).kind == KindModel::Float(bits),
{
}

/// Whether a raw node matches the probe variant at the given position of
/// the mandatory order: Boolean, I64, I128, U64, U128, Float, String,
/// Table, Array, Option, Nil. The string variant matches string-like nodes
/// (and date/time nodes when that capability is registered); the table
/// variant matches a mapping of literal shape, or any mapping when the
/// native-mapping capability is registered; the option variant matches an
/// absent value; the final catch-all matches everything.
pub open spec fn variant_matches(caps: FormatCaps, r: RawModel, idx: int) -> bool {
    if idx == 0 {
        r is Bool
    } else if idx == 1 {
        r is I64
    } else if idx == 2 {
        r is I128
    } else if idx == 3 {
        r is U64
    } else if idx == 4 {
        r is U128
    } else if idx == 5 {
        r is Float
    } else if idx == 6 {
        r is Str || r is Char || (caps.datetime_text && r is Datetime)
    } else if idx == 7 {
        r matches RawModel::Mapping(es) && (keys_all_str(es) || caps.native_mapping)
    } else if idx == 8 {
        r is Sequence
    } else if idx == 9 {
        r is Null
    } else {
        idx == 10
    }
}

/// The position of an intermediate variant in the mandatory order.
pub open spec fn parsed_variant(p: ParsedModel) -> int {
    match p {
        ParsedModel::Boolean(_) => 0,
        ParsedModel::I64(_) => 1,
        ParsedModel::I128(_) => 2,
        ParsedModel::U64(_) => 3,
        ParsedModel::U128(_) => 4,
        ParsedModel::Float(_) => 5,
        ParsedModel::Str(_) => 6,
        ParsedModel::Table(_) => 7,
        ParsedModel::Array(_) => 8,
        ParsedModel::Option(_) => 9,
        ParsedModel::Nil => 10,
    }
}

/// Probe order determinism: the variant a raw node commits to is the first
/// matching one in the mandatory order — it matches, and no earlier variant
/// does. (That the committed variant is always the same across repeated
/// calls is already pinned by the probe's contract, which equates its result
/// with one function of the capabilities and the raw node.)
pub proof fn lemma_probe_first_match(caps: FormatCaps, r: RawModel)
    requires
        probe_spec(caps, r) is Ok,
    ensures
        variant_matches(caps, r, parsed_variant(probe_spec(caps, r)->Ok_0)),
        forall|j: int|
            0 <= j < parsed_variant(probe_spec(caps, r)->Ok_0) ==> !variant_matches(caps, r, j),
{
    match r {
        RawModel::Bool(_) => {},
        RawModel::I64(_) => {},
        RawModel::I128(_) => {},
        RawModel::U64(_) => {},
        RawModel::U128(_) => {},
        RawModel::Float(_) => {},
        RawModel::Str(_) => {},
        RawModel::Char(_) => {},
        RawModel::Datetime(_) => {},
        RawModel::Sequence(_) => {},
        RawModel::Mapping(_) => {},
        RawModel::Null => {},
    }
}

} // verus!
