//! Collections of requests and environments, and their name-keyed serialized form.
//!
//! The encoding of a single request or environment is supplied by the caller as a
//! function; this module owns how items are keyed by name, what happens on a name
//! collision, and which items survive a failed encode or decode.
use crate::model::{Request, RequestView};
use std::collections::HashMap;
use std::path::PathBuf;
use vstd::prelude::*;

verus! {

/// std's `PathBuf`, carried through as an opaque value (a collection's location).
#[verifier::external_type_specification]
#[verifier::external_body]
pub struct ExPathBuf(PathBuf);

/// The kind of a process-wide secret.
#[derive(Clone, Copy, Debug, PartialEq, Eq, Structural)]
pub enum Secret {
    RawValue,
}

/// A variable of an environment: either a secret or a plain value.
#[derive(Clone, Debug, PartialEq, Eq)]
pub enum EnvironmentValue {
    Secret(String),
    Value(String),
}

pub type EnvironmentValues = HashMap<String, EnvironmentValue>;

impl DeepView for EnvironmentValue {
    /// Whether the variable is secret, and its text.
    type V = (bool, Seq<char>);

    open spec fn deep_view(&self) -> (bool, Seq<char>) {
        match self {
            EnvironmentValue::Secret(s) => (true, s@),
            EnvironmentValue::Value(s) => (false, s@),
        }
    }
}

/// A named bag of variables. The name is unique within a collection and names its file.
#[derive(Clone, Debug, PartialEq)]
pub struct Environment {
    pub name: String,
    pub values: EnvironmentValues,
}

/// Requests and environments, with the directory they were loaded from.
#[derive(Clone, Debug)]
pub struct Collection {
    pub requests: Vec<Request>,
    pub environments: Vec<Environment>,
    pub save_location: Option<PathBuf>,
}

/// The transient on-disk form: for requests and for environments, a mapping from
/// name to encoded bytes, held as a list of entries whose names are distinct.
#[derive(Clone, Debug)]
pub struct SerializedCollection {
    pub requests: Vec<(String, Vec<u8>)>,
    pub environments: Vec<(String, Vec<u8>)>,
}

/// The mapping that a list of entries stands for.
pub open spec fn entries_map(s: Seq<(String, Vec<u8>)>) -> Map<Seq<char>, Vec<u8>>
    decreases s.len(),
{
    if s.len() == 0 {
        Map::empty()
    } else {
        entries_map(s.drop_last()).insert(s.last().0@, s.last().1)
    }
}

/// No two entries share a name.
pub open spec fn keys_unique(s: Seq<(String, Vec<u8>)>) -> bool {
    forall|i: int, j: int| 0 <= i < j < s.len() ==> s[i].0@ != s[j].0@
}

/// The mapping obtained by storing, in order, each item whose encoding succeeded
/// under its name: a later item replaces an earlier one of the same name.
pub open spec fn frame(names: Seq<Seq<char>>, blobs: Seq<Option<Vec<u8>>>) -> Map<
    Seq<char>,
    Vec<u8>,
>
    decreases names.len(),
{
    if names.len() == 0 {
        Map::empty()
    } else {
        let rest = frame(names.drop_last(), blobs.drop_last());
        match blobs.last() {
            Some(b) => rest.insert(names.last(), b),
            None => rest,
        }
    }
}

/// The items that decoded, in order.
pub open spec fn somes<T>(s: Seq<Option<T>>) -> Seq<T>
    decreases s.len(),
{
    if s.len() == 0 {
        Seq::empty()
    } else {
        match s.last() {
            Some(x) => somes(s.drop_last()).push(x),
            None => somes(s.drop_last()),
        }
    }
}

/// The environments whose values decoded, each named by its entry.
pub open spec fn named(entries: Seq<(String, Vec<u8>)>, vals: Seq<Option<EnvironmentValues>>) -> Seq<
    Environment,
>
    decreases vals.len(),
{
    if vals.len() == 0 {
        Seq::empty()
    } else {
        let rest = named(entries.drop_last(), vals.drop_last());
        match vals.last() {
            Some(v) => rest.push(Environment { name: entries.last().0, values: v }),
            None => rest,
        }
    }
}

pub open spec fn request_names(rs: Seq<Request>) -> Seq<Seq<char>> {
    rs.map_values(|r: Request| r.name@)
}

pub open spec fn environment_names(es: Seq<Environment>) -> Seq<Seq<char>> {
    es.map_values(|e: Environment| e.name@)
}

/// `outs` holds, for each request, what the encoder returned on it.
pub open spec fn encodes_requests<E: Fn(&Request) -> Option<Vec<u8>>>(
    enc: E,
    rs: Seq<Request>,
    outs: Seq<Option<Vec<u8>>>,
) -> bool {
    &&& outs.len() == rs.len()
    &&& forall|i: int| 0 <= i < rs.len() ==> enc.ensures((&rs[i],), #[trigger] outs[i])
}

/// `outs` holds, for each environment, what the encoder returned on its values.
pub open spec fn encodes_environments<E: Fn(&EnvironmentValues) -> Option<Vec<u8>>>(
    enc: E,
    es: Seq<Environment>,
    outs: Seq<Option<Vec<u8>>>,
) -> bool {
    &&& outs.len() == es.len()
    &&& forall|i: int| 0 <= i < es.len() ==> enc.ensures((&es[i].values,), #[trigger] outs[i])
}

/// `outs` holds, for each entry, what the decoder returned on its bytes.
pub open spec fn decodes_entries<T, D: Fn(&Vec<u8>) -> Option<T>>(
    dec: D,
    entries: Seq<(String, Vec<u8>)>,
    outs: Seq<Option<T>>,
) -> bool {
    &&& outs.len() == entries.len()
    &&& forall|j: int| 0 <= j < entries.len() ==> dec.ensures((&entries[j].1,), #[trigger] outs[j])
}

/// `s` is what `serialize` produces from `c` with these encoders.
pub open spec fn serialized_by<ER, EV>(c: Collection, enc_r: ER, enc_v: EV, s: SerializedCollection) -> bool where
    ER: Fn(&Request) -> Option<Vec<u8>>,
    EV: Fn(&EnvironmentValues) -> Option<Vec<u8>>,
 {
    &&& keys_unique(s.requests@)
    &&& keys_unique(s.environments@)
    &&& exists|outs: Seq<Option<Vec<u8>>>|
        encodes_requests(enc_r, c.requests@, outs) && entries_map(s.requests@) == frame(
            request_names(c.requests@),
            outs,
        )
    &&& exists|outs: Seq<Option<Vec<u8>>>|
        encodes_environments(enc_v, c.environments@, outs) && entries_map(s.environments@)
            == frame(environment_names(c.environments@), outs)
}

/// `c` is what `deserialize` produces from `s` with these decoders.
pub open spec fn deserialized_by<DR, DV>(
    loc: PathBuf,
    s: SerializedCollection,
    dec_r: DR,
    dec_v: DV,
    c: Collection,
) -> bool where
    DR: Fn(&Vec<u8>) -> Option<Request>,
    DV: Fn(&Vec<u8>) -> Option<EnvironmentValues>,
 {
    &&& exists|outs: Seq<Option<Request>>|
        decodes_entries(dec_r, s.requests@, outs) && c.requests@ == somes(outs)
    &&& exists|outs: Seq<Option<EnvironmentValues>>|
        decodes_entries(dec_v, s.environments@, outs) && c.environments@ == named(
            s.environments@,
            outs,
        )
    &&& c.save_location == Some(loc)
}

proof fn lemma_entries_update(s: Seq<(String, Vec<u8>)>, k: int, e: (String, Vec<u8>))
    requires
        keys_unique(s),
        0 <= k < s.len(),
        s[k].0@ == e.0@,
    ensures
        keys_unique(s.update(k, e)),
        entries_map(s.update(k, e)) == entries_map(s).insert(e.0@, e.1),
    decreases s.len(),
{
    let t = s.update(k, e);
    assert(keys_unique(t)) by {
        assert forall|i: int, j: int| 0 <= i < j < t.len() implies t[i].0@ != t[j].0@ by {
            assert(t[i].0@ == s[i].0@);
            assert(t[j].0@ == s[j].0@);
        }
    }
    if k == s.len() - 1 {
        assert(t.drop_last() =~= s.drop_last());
        assert(entries_map(t) =~= entries_map(s).insert(e.0@, e.1));
    } else {
        assert(t.drop_last() =~= s.drop_last().update(k, e));
        lemma_entries_update(s.drop_last(), k, e);
        assert(s.last().0@ != e.0@);
        assert(entries_map(t) =~= entries_map(s).insert(e.0@, e.1));
    }
}

/// In a list of distinct names, each entry is found under its name, and
/// only entries are found.
proof fn lemma_entries_lookup(s: Seq<(String, Vec<u8>)>)
    requires
        keys_unique(s),
    ensures
        forall|j: int|
            0 <= j < s.len() ==> #[trigger] entries_map(s).contains_key(s[j].0@) && entries_map(
                s,
            )[s[j].0@] == s[j].1,
        forall|k: Seq<char>|
            #[trigger] entries_map(s).contains_key(k) ==> exists|j: int|
                0 <= j < s.len() && s[j].0@ == k,
        entries_map(s).dom().finite(),
        entries_map(s).dom().len() == s.len(),
    decreases s.len(),
{
    if s.len() > 0 {
        let p = s.drop_last();
        lemma_entries_lookup(p);
        assert forall|j: int|
            0 <= j < s.len() implies #[trigger] entries_map(s).contains_key(s[j].0@)
            && entries_map(s)[s[j].0@] == s[j].1 by {
            if j < s.len() - 1 {
                assert(p[j] == s[j]);
            }
        }
        assert forall|k: Seq<char>| #[trigger] entries_map(s).contains_key(k) implies exists|j: int|
            0 <= j < s.len() && s[j].0@ == k by {
            if k != s.last().0@ {
                assert(entries_map(p).contains_key(k));
                let j = choose|j: int| 0 <= j < p.len() && p[j].0@ == k;
                assert(s[j] == p[j]);
            } else {
                assert(s[s.len() - 1].0@ == k);
            }
        }
        if entries_map(p).contains_key(s.last().0@) {
            let j = choose|j: int| 0 <= j < p.len() && p[j].0@ == s.last().0@;
            assert(s[j] == p[j]);
            assert(false);
        }
        assert(entries_map(s).dom() =~= entries_map(p).dom().insert(s.last().0@));
    }
}

/// Every key of a frame comes from an item of that name whose encoding is the stored value;
/// with distinct names, every item that encoded is stored under its name.
proof fn lemma_frame(names: Seq<Seq<char>>, blobs: Seq<Option<Vec<u8>>>)
    requires
        names.len() == blobs.len(),
    ensures
        forall|k: Seq<char>|
            #[trigger] frame(names, blobs).contains_key(k) ==> exists|i: int|
                0 <= i < names.len() && names[i] == k && blobs[i] == Some(frame(names, blobs)[k]),
        (forall|i: int, j: int| 0 <= i < j < names.len() ==> names[i] != names[j]) ==> forall|i: int|
            0 <= i < names.len() && #[trigger] blobs[i] is Some ==> frame(names, blobs).contains_key(
                names[i],
            ) && frame(names, blobs)[names[i]] == blobs[i]->0,
    decreases names.len(),
{
    if names.len() > 0 {
        let pn = names.drop_last();
        let pb = blobs.drop_last();
        lemma_frame(pn, pb);
        let f = frame(names, blobs);
        assert forall|k: Seq<char>| #[trigger] f.contains_key(k) implies exists|i: int|
            0 <= i < names.len() && names[i] == k && blobs[i] == Some(f[k]) by {
            let last = names.len() - 1;
            if blobs.last() is Some && k == names.last() {
                assert(names[last] == k && blobs[last] == Some(f[k]));
            } else {
                assert(frame(pn, pb).contains_key(k));
                let i = choose|i: int|
                    0 <= i < pn.len() && pn[i] == k && pb[i] == Some(frame(pn, pb)[k]);
                assert(names[i] == k && blobs[i] == Some(f[k]));
            }
        }
        if forall|i: int, j: int| 0 <= i < j < names.len() ==> names[i] != names[j] {
            assert forall|i: int|
                0 <= i < names.len() && #[trigger] blobs[i] is Some implies f.contains_key(names[i])
                && f[names[i]] == blobs[i]->0 by {
                if i < names.len() - 1 {
                    assert(pn[i] == names[i] && pb[i] == blobs[i]);
                    assert(pb[i] is Some);
                }
            }
        }
    }
}

proof fn lemma_somes_contains<T>(s: Seq<Option<T>>)
    ensures
        forall|x: T| somes(s).contains(x) <==> exists|j: int| 0 <= j < s.len() && s[j] == Some(x),
    decreases s.len(),
{
    if s.len() > 0 {
        let p = s.drop_last();
        lemma_somes_contains(p);
        assert forall|x: T| somes(s).contains(x) <==> exists|j: int|
            0 <= j < s.len() && s[j] == Some(x) by {
            if somes(s).contains(x) {
                if s.last() == Some(x) {
                    assert(s[s.len() - 1] == Some(x));
                } else {
                    let k = choose|k: int| 0 <= k < somes(s).len() && somes(s)[k] == x;
                    assert(somes(p).contains(x)) by {
                        match s.last() {
                            Some(y) => {
                                assert(somes(s)[k] == somes(p)[k]);
                            },
                            None => {},
                        }
                    }
                    let j = choose|j: int| 0 <= j < p.len() && p[j] == Some(x);
                    assert(s[j] == p[j]);
                }
            }
            if exists|j: int| 0 <= j < s.len() && s[j] == Some(x) {
                let j = choose|j: int| 0 <= j < s.len() && s[j] == Some(x);
                if j == s.len() - 1 {
                    assert(somes(s).last() == x);
                    assert(somes(s)[somes(s).len() - 1] == x);
                } else {
                    assert(p[j] == Some(x));
                    assert(somes(p).contains(x));
                    let k = choose|k: int| 0 <= k < somes(p).len() && somes(p)[k] == x;
                    match s.last() {
                        Some(y) => {
                            assert(somes(s)[k] == x);
                        },
                        None => {},
                    }
                }
            }
        }
    }
}

proof fn lemma_named_contains(entries: Seq<(String, Vec<u8>)>, vals: Seq<Option<EnvironmentValues>>)
    requires
        entries.len() == vals.len(),
    ensures
        forall|e: Environment|
            named(entries, vals).contains(e) <==> exists|j: int|
                0 <= j < vals.len() && vals[j] == Some(e.values) && entries[j].0 == e.name,
    decreases vals.len(),
{
    if vals.len() > 0 {
        let pe = entries.drop_last();
        let pv = vals.drop_last();
        lemma_named_contains(pe, pv);
        let n = named(entries, vals);
        assert forall|e: Environment| n.contains(e) <==> exists|j: int|
            0 <= j < vals.len() && vals[j] == Some(e.values) && entries[j].0 == e.name by {
            let last = vals.len() - 1;
            if n.contains(e) {
                let k = choose|k: int| 0 <= k < n.len() && n[k] == e;
                match vals.last() {
                    Some(v) => {
                        if k == n.len() - 1 {
                            assert(vals[last] == Some(e.values) && entries[last].0 == e.name);
                        } else {
                            assert(named(pe, pv)[k] == e);
                            assert(named(pe, pv).contains(e));
                            let j = choose|j: int|
                                0 <= j < pv.len() && pv[j] == Some(e.values) && pe[j].0 == e.name;
                            assert(vals[j] == pv[j] && entries[j] == pe[j]);
                        }
                    },
                    None => {
                        assert(named(pe, pv).contains(e));
                        let j = choose|j: int|
                            0 <= j < pv.len() && pv[j] == Some(e.values) && pe[j].0 == e.name;
                        assert(vals[j] == pv[j] && entries[j] == pe[j]);
                    },
                }
            }
            if exists|j: int| 0 <= j < vals.len() && vals[j] == Some(e.values) && entries[j].0 == e.name {
                let j = choose|j: int|
                    0 <= j < vals.len() && vals[j] == Some(e.values) && entries[j].0 == e.name;
                if j == last {
                    assert(n[n.len() - 1] == e);
                } else {
                    assert(pv[j] == vals[j] && pe[j] == entries[j]);
                    assert(named(pe, pv).contains(e));
                    let k = choose|k: int| 0 <= k < named(pe, pv).len() && named(pe, pv)[k] == e;
                    match vals.last() {
                        Some(v) => {
                            assert(n[k] == e);
                        },
                        None => {},
                    }
                }
            }
        }
    }
}

/// The names of the requests are pairwise distinct, and so are those of the environments.
pub open spec fn names_distinct(c: Collection) -> bool {
    &&& forall|i: int, j: int|
        0 <= i < j < c.requests.len() ==> c.requests@[i].name@ != c.requests@[j].name@
    &&& forall|i: int, j: int|
        0 <= i < j < c.environments.len() ==> c.environments@[i].name@
            != c.environments@[j].name@
}

/// Every request encodes, and decoding its encoding gives a request of the same content.
pub open spec fn request_codec_lossless<E, D>(enc: E, dec: D) -> bool where
    E: Fn(&Request) -> Option<Vec<u8>>,
    D: Fn(&Vec<u8>) -> Option<Request>,
 {
    forall|q: Request, o: Option<Vec<u8>>|
        #[trigger] enc.ensures((&q,), o) ==> o is Some && forall|d: Option<Request>|
            #[trigger] dec.ensures((&o->0,), d) ==> (d matches Some(x) && x@ == q@)
}

/// Every set of environment values encodes, and decoding the encoding gives the same
/// variables back.
pub open spec fn values_codec_lossless<E, D>(enc: E, dec: D) -> bool where
    E: Fn(&EnvironmentValues) -> Option<Vec<u8>>,
    D: Fn(&Vec<u8>) -> Option<EnvironmentValues>,
 {
    forall|v: EnvironmentValues, o: Option<Vec<u8>>|
        #[trigger] enc.ensures((&v,), o) ==> o is Some && forall|d: Option<EnvironmentValues>|
            #[trigger] dec.ensures((&o->0,), d) ==> (d matches Some(x) && x.deep_view()
                == v.deep_view())
}

/// The requests by content.
pub open spec fn request_views(rs: Seq<Request>) -> Seq<RequestView> {
    rs.map_values(|r: Request| r@)
}

/// Each environment as its name and its variables, by content.
pub open spec fn environment_pairs(es: Seq<Environment>) -> Seq<
    (Seq<char>, Map<Seq<char>, (bool, Seq<char>)>),
> {
    es.map_values(|e: Environment| (e.name@, e.values.deep_view()))
}

proof fn lemma_round_trip_requests<ER, EV, DR, DV>(
    c: Collection,
    enc_r: ER,
    enc_v: EV,
    s: SerializedCollection,
    loc: PathBuf,
    dec_r: DR,
    dec_v: DV,
    back: Collection,
) where
    ER: Fn(&Request) -> Option<Vec<u8>>,
    EV: Fn(&EnvironmentValues) -> Option<Vec<u8>>,
    DR: Fn(&Vec<u8>) -> Option<Request>,
    DV: Fn(&Vec<u8>) -> Option<EnvironmentValues>,

    requires
        names_distinct(c),
        request_codec_lossless(enc_r, dec_r),
        serialized_by(c, enc_r, enc_v, s),
        deserialized_by(loc, s, dec_r, dec_v, back),
    ensures
        request_views(back.requests@).to_set() == request_views(c.requests@).to_set(),
{
    let names = request_names(c.requests@);
    let outs = choose|outs: Seq<Option<Vec<u8>>>|
        encodes_requests(enc_r, c.requests@, outs) && entries_map(s.requests@) == frame(
            names,
            outs,
        );
    let decs = choose|decs: Seq<Option<Request>>|
        decodes_entries(dec_r, s.requests@, decs) && back.requests@ == somes(decs);
    let es = s.requests@;
    assert forall|i: int, j: int| 0 <= i < j < names.len() implies names[i] != names[j] by {
        assert(names[i] == c.requests@[i].name@ && names[j] == c.requests@[j].name@);
    }
    lemma_frame(names, outs);
    lemma_entries_lookup(es);
    lemma_somes_contains(decs);
    let bv = request_views(back.requests@);
    let cv = request_views(c.requests@);
    assert forall|x: RequestView| bv.contains(x) <==> cv.contains(x) by {
        if bv.contains(x) {
            let m = choose|m: int| 0 <= m < bv.len() && bv[m] == x;
            let y = back.requests@[m];
            assert(back.requests@.contains(y));
            let j = choose|j: int| 0 <= j < decs.len() && decs[j] == Some(y);
            assert(entries_map(es).contains_key(es[j].0@));
            let k = es[j].0@;
            let i = choose|i: int|
                0 <= i < names.len() && names[i] == k && outs[i] == Some(frame(names, outs)[k]);
            assert(enc_r.ensures((&c.requests@[i],), outs[i]));
            assert(dec_r.ensures((&es[j].1,), decs[j]));
            assert(cv[i] == x);
        }
        if cv.contains(x) {
            let i = choose|i: int| 0 <= i < cv.len() && cv[i] == x;
            assert(enc_r.ensures((&c.requests@[i],), outs[i]));
            assert(outs[i] is Some);
            assert(frame(names, outs).contains_key(names[i]));
            let j = choose|j: int| 0 <= j < es.len() && es[j].0@ == names[i];
            assert(dec_r.ensures((&es[j].1,), decs[j]));
            let y = decs[j]->0;
            assert(back.requests@.contains(y));
            let m = choose|m: int| 0 <= m < back.requests@.len() && back.requests@[m] == y;
            assert(bv[m] == x);
        }
    }
    assert(bv.to_set() =~= cv.to_set());
}

proof fn lemma_round_trip_environments<ER, EV, DR, DV>(
    c: Collection,
    enc_r: ER,
    enc_v: EV,
    s: SerializedCollection,
    loc: PathBuf,
    dec_r: DR,
    dec_v: DV,
    back: Collection,
) where
    ER: Fn(&Request) -> Option<Vec<u8>>,
    EV: Fn(&EnvironmentValues) -> Option<Vec<u8>>,
    DR: Fn(&Vec<u8>) -> Option<Request>,
    DV: Fn(&Vec<u8>) -> Option<EnvironmentValues>,

    requires
        names_distinct(c),
        values_codec_lossless(enc_v, dec_v),
        serialized_by(c, enc_r, enc_v, s),
        deserialized_by(loc, s, dec_r, dec_v, back),
    ensures
        environment_pairs(back.environments@).to_set() == environment_pairs(
            c.environments@,
        ).to_set(),
{
    let names = environment_names(c.environments@);
    let outs = choose|outs: Seq<Option<Vec<u8>>>|
        encodes_environments(enc_v, c.environments@, outs) && entries_map(s.environments@)
            == frame(names, outs);
    let decs = choose|decs: Seq<Option<EnvironmentValues>>|
        decodes_entries(dec_v, s.environments@, decs) && back.environments@ == named(
            s.environments@,
            decs,
        );
    let es = s.environments@;
    assert forall|i: int, j: int| 0 <= i < j < names.len() implies names[i] != names[j] by {
        assert(names[i] == c.environments@[i].name@ && names[j] == c.environments@[j].name@);
    }
    lemma_frame(names, outs);
    lemma_entries_lookup(es);
    lemma_named_contains(es, decs);
    let bp = environment_pairs(back.environments@);
    let cp = environment_pairs(c.environments@);
    assert forall|x: (Seq<char>, Map<Seq<char>, (bool, Seq<char>)>)| bp.contains(x) <==> cp.contains(
        x,
    ) by {
        if bp.contains(x) {
            let m = choose|m: int| 0 <= m < bp.len() && bp[m] == x;
            let e = back.environments@[m];
            assert(back.environments@.contains(e));
            let j = choose|j: int|
                0 <= j < decs.len() && decs[j] == Some(e.values) && es[j].0 == e.name;
            assert(entries_map(es).contains_key(es[j].0@));
            let k = es[j].0@;
            let i = choose|i: int|
                0 <= i < names.len() && names[i] == k && outs[i] == Some(frame(names, outs)[k]);
            assert(enc_v.ensures((&c.environments@[i].values,), outs[i]));
            assert(dec_v.ensures((&es[j].1,), decs[j]));
            assert(cp[i] == x);
        }
        if cp.contains(x) {
            let i = choose|i: int| 0 <= i < cp.len() && cp[i] == x;
            let ce = c.environments@[i];
            assert(enc_v.ensures((&ce.values,), outs[i]));
            assert(outs[i] is Some);
            assert(frame(names, outs).contains_key(names[i]));
            let j = choose|j: int| 0 <= j < es.len() && es[j].0@ == names[i];
            assert(dec_v.ensures((&es[j].1,), decs[j]));
            let e = Environment { name: es[j].0, values: decs[j]->0 };
            assert(back.environments@.contains(e));
            let m = choose|m: int| 0 <= m < back.environments@.len() && back.environments@[m] == e;
            assert(bp[m] == x);
        }
    }
    assert(bp.to_set() =~= cp.to_set());
}

/// Round trip: with distinct names and encoders that the decoders invert, decoding what
/// `serialize` produced gives back the same requests and the same (name, values) pairs of
/// environments, as sets, and the location that was given.
pub proof fn lemma_round_trip<ER, EV, DR, DV>(
    c: Collection,
    enc_r: ER,
    enc_v: EV,
    s: SerializedCollection,
    loc: PathBuf,
    dec_r: DR,
    dec_v: DV,
    back: Collection,
) where
    ER: Fn(&Request) -> Option<Vec<u8>>,
    EV: Fn(&EnvironmentValues) -> Option<Vec<u8>>,
    DR: Fn(&Vec<u8>) -> Option<Request>,
    DV: Fn(&Vec<u8>) -> Option<EnvironmentValues>,

    requires
        names_distinct(c),
        request_codec_lossless(enc_r, dec_r),
        values_codec_lossless(enc_v, dec_v),
        serialized_by(c, enc_r, enc_v, s),
        deserialized_by(loc, s, dec_r, dec_v, back),
    ensures
        request_views(back.requests@).to_set() == request_views(c.requests@).to_set(),
        environment_pairs(back.environments@).to_set() == environment_pairs(
            c.environments@,
        ).to_set(),
        back.save_location == Some(loc),
{
    lemma_round_trip_requests(c, enc_r, enc_v, s, loc, dec_r, dec_v, back);
    lemma_round_trip_environments(c, enc_r, enc_v, s, loc, dec_r, dec_v, back);
}

/// Name collision: two requests of one name that both encode leave exactly one entry.
pub proof fn lemma_name_collision<ER, EV>(
    c: Collection,
    enc_r: ER,
    enc_v: EV,
    s: SerializedCollection,
) where
    ER: Fn(&Request) -> Option<Vec<u8>>,
    EV: Fn(&EnvironmentValues) -> Option<Vec<u8>>,

    requires
        c.requests.len() == 2,
        c.requests@[0].name@ == c.requests@[1].name@,
        forall|i: int, o: Option<Vec<u8>>|
            0 <= i < 2 && #[trigger] enc_r.ensures((&c.requests@[i],), o) ==> o is Some,
        serialized_by(c, enc_r, enc_v, s),
    ensures
        s.requests.len() == 1,
{
    let names = request_names(c.requests@);
    let outs = choose|outs: Seq<Option<Vec<u8>>>|
        encodes_requests(enc_r, c.requests@, outs) && entries_map(s.requests@) == frame(
            names,
            outs,
        );
    assert(enc_r.ensures((&c.requests@[0],), outs[0]));
    assert(enc_r.ensures((&c.requests@[1],), outs[1]));
    let n = names[0];
    assert(names[1] == n);
    assert(outs[0] is Some && outs[1] is Some);
    let n1 = names.drop_last();
    let o1 = outs.drop_last();
    assert(n1.drop_last().len() == 0);
    assert(frame(n1.drop_last(), o1.drop_last()) == Map::<Seq<char>, Vec<u8>>::empty());
    assert(o1.last() == outs[0] && n1.last() == n);
    let m1 = frame(n1, o1);
    assert(m1 =~= Map::<Seq<char>, Vec<u8>>::empty().insert(n, outs[0]->0));
    assert(frame(names, outs).dom() =~= set![n]);
    lemma_entries_lookup(s.requests@);
    assert(set![n].len() == 1) by {
        assert(set![n] == Set::<Seq<char>>::empty().insert(n));
    }
}

proof fn lemma_somes_all<T>(s: Seq<Option<T>>)
    requires
        forall|j: int| 0 <= j < s.len() ==> #[trigger] s[j] is Some,
    ensures
        somes(s).len() == s.len(),
    decreases s.len(),
{
    if s.len() > 0 {
        let p = s.drop_last();
        assert forall|j: int| 0 <= j < p.len() implies #[trigger] p[j] is Some by {
            assert(p[j] == s[j]);
        }
        lemma_somes_all(p);
        assert(s[s.len() - 1] is Some);
    }
}

proof fn lemma_somes_one_missing<T>(s: Seq<Option<T>>, bad: int)
    requires
        0 <= bad < s.len(),
        s[bad] is None,
        forall|j: int| 0 <= j < s.len() && j != bad ==> #[trigger] s[j] is Some,
    ensures
        somes(s).len() == s.len() - 1,
    decreases s.len(),
{
    let p = s.drop_last();
    if bad == s.len() - 1 {
        assert forall|j: int| 0 <= j < p.len() implies #[trigger] p[j] is Some by {
            assert(p[j] == s[j]);
        }
        lemma_somes_all(p);
    } else {
        assert forall|j: int| 0 <= j < p.len() && j != bad implies #[trigger] p[j] is Some by {
            assert(p[j] == s[j]);
        }
        assert(p[bad] == s[bad]);
        lemma_somes_one_missing(p, bad);
        assert(s[s.len() - 1] is Some);
    }
}

/// Partial corruption: when exactly one of the request entries fails to decode, every
/// other request still comes back, one fewer than there were entries.
pub proof fn lemma_partial_corruption<DR, DV>(
    loc: PathBuf,
    s: SerializedCollection,
    dec_r: DR,
    dec_v: DV,
    back: Collection,
    bad: int,
) where
    DR: Fn(&Vec<u8>) -> Option<Request>,
    DV: Fn(&Vec<u8>) -> Option<EnvironmentValues>,

    requires
        0 <= bad < s.requests.len(),
        forall|d: Option<Request>| #[trigger] dec_r.ensures((&s.requests@[bad].1,), d) ==> d is None,
        forall|j: int, d: Option<Request>|
            0 <= j < s.requests.len() && j != bad && #[trigger] dec_r.ensures(
                (&s.requests@[j].1,),
                d,
            ) ==> d is Some,
        deserialized_by(loc, s, dec_r, dec_v, back),
    ensures
        back.requests.len() == s.requests.len() - 1,
{
    let decs = choose|decs: Seq<Option<Request>>|
        decodes_entries(dec_r, s.requests@, decs) && back.requests@ == somes(decs);
    assert(dec_r.ensures((&s.requests@[bad].1,), decs[bad]));
    assert forall|j: int| 0 <= j < decs.len() && j != bad implies #[trigger] decs[j] is Some by {
        assert(dec_r.ensures((&s.requests@[j].1,), decs[j]));
    }
    lemma_somes_one_missing(decs, bad);
}

proof fn lemma_named_all(entries: Seq<(String, Vec<u8>)>, vals: Seq<Option<EnvironmentValues>>)
    requires
        forall|j: int| 0 <= j < vals.len() ==> #[trigger] vals[j] is Some,
    ensures
        named(entries, vals).len() == vals.len(),
    decreases vals.len(),
{
    if vals.len() > 0 {
        let p = vals.drop_last();
        assert forall|j: int| 0 <= j < p.len() implies #[trigger] p[j] is Some by {
            assert(p[j] == vals[j]);
        }
        lemma_named_all(entries.drop_last(), p);
        assert(vals[vals.len() - 1] is Some);
    }
}

/// A frame over a single item that encoded holds exactly one entry.
proof fn lemma_frame_single(names: Seq<Seq<char>>, outs: Seq<Option<Vec<u8>>>)
    requires
        names.len() == 1,
        outs.len() == 1,
        outs[0] is Some,
    ensures
        frame(names, outs).dom() =~= set![names[0]],
        set![names[0]].len() == 1,
{
    assert(names.drop_last().len() == 0);
    assert(frame(names.drop_last(), outs.drop_last()) == Map::<Seq<char>, Vec<u8>>::empty());
    assert(set![names[0]] == Set::<Seq<char>>::empty().insert(names[0]));
}

/// Load-or-create: the collection created on first run holds one request and one
/// environment; saving it and reading it back with a lossless codec gives one request
/// and one environment again.
pub proof fn lemma_created_collection_reloads<ER, EV, DR, DV>(
    c: Collection,
    enc_r: ER,
    enc_v: EV,
    s: SerializedCollection,
    loc: PathBuf,
    dec_r: DR,
    dec_v: DV,
    back: Collection,
) where
    ER: Fn(&Request) -> Option<Vec<u8>>,
    EV: Fn(&EnvironmentValues) -> Option<Vec<u8>>,
    DR: Fn(&Vec<u8>) -> Option<Request>,
    DV: Fn(&Vec<u8>) -> Option<EnvironmentValues>,

    requires
        c.requests.len() == 1,
        c.environments.len() == 1,
        request_codec_lossless(enc_r, dec_r),
        values_codec_lossless(enc_v, dec_v),
        serialized_by(c, enc_r, enc_v, s),
        deserialized_by(loc, s, dec_r, dec_v, back),
    ensures
        back.requests.len() == 1,
        back.environments.len() == 1,
{
    let names = request_names(c.requests@);
    let outs = choose|outs: Seq<Option<Vec<u8>>>|
        encodes_requests(enc_r, c.requests@, outs) && entries_map(s.requests@) == frame(
            names,
            outs,
        );
    assert(enc_r.ensures((&c.requests@[0],), outs[0]));
    lemma_frame_single(names, outs);
    lemma_frame(names, outs);
    lemma_entries_lookup(s.requests@);
    let es = s.requests@;
    let decs = choose|decs: Seq<Option<Request>>|
        decodes_entries(dec_r, s.requests@, decs) && back.requests@ == somes(decs);
    assert(entries_map(es).contains_key(es[0].0@));
    assert(dec_r.ensures((&es[0].1,), decs[0]));
    assert(decs[0] is Some);
    assert forall|j: int| 0 <= j < decs.len() implies #[trigger] decs[j] is Some by {}
    lemma_somes_all(decs);

    let vnames = environment_names(c.environments@);
    let vouts = choose|outs: Seq<Option<Vec<u8>>>|
        encodes_environments(enc_v, c.environments@, outs) && entries_map(s.environments@)
            == frame(vnames, outs);
    assert(enc_v.ensures((&c.environments@[0].values,), vouts[0]));
    lemma_frame_single(vnames, vouts);
    lemma_frame(vnames, vouts);
    lemma_entries_lookup(s.environments@);
    let ves = s.environments@;
    let vdecs = choose|decs: Seq<Option<EnvironmentValues>>|
        decodes_entries(dec_v, s.environments@, decs) && back.environments@ == named(
            s.environments@,
            decs,
        );
    assert(entries_map(ves).contains_key(ves[0].0@));
    assert(dec_v.ensures((&ves[0].1,), vdecs[0]));
    assert(vdecs[0] is Some);
    assert forall|j: int| 0 <= j < vdecs.len() implies #[trigger] vdecs[j] is Some by {}
    lemma_named_all(ves, vdecs);
}

/// Stores `bytes` under `name`, replacing the entry of that name if there is one.
fn upsert(entries: &mut Vec<(String, Vec<u8>)>, name: String, bytes: Vec<u8>)
    requires
        keys_unique(old(entries)@),
    ensures
        keys_unique(final(entries)@),
        entries_map(final(entries)@) == entries_map(old(entries)@).insert(name@, bytes),
{
    let mut k: usize = 0;
    while k < entries.len()
        invariant
            k <= entries.len(),
            entries@ == old(entries)@,
            keys_unique(entries@),
            forall|i: int| 0 <= i < k ==> entries@[i].0@ != name@,
        decreases entries.len() - k,
    {
        if entries[k].0 == name {
            proof {
                lemma_entries_update(entries@, k as int, (name, bytes));
            }
            entries.set(k, (name, bytes));
            return;
        }
        k += 1;
    }
    let ghost prev = entries@;
    entries.push((name, bytes));
    proof {
        assert(entries@.drop_last() =~= prev);
    }
}

/// Each entry as a file path under `dir`, with its contents.
pub open spec fn files_under(dir: Seq<char>, entries: Seq<(String, Vec<u8>)>) -> Seq<
    (Seq<char>, Vec<u8>),
> {
    entries.map_values(|e: (String, Vec<u8>)| (dir + e.0@, e.1))
}

/// A file path and contents, as plain values.
pub open spec fn file_view(f: (String, Vec<u8>)) -> (Seq<char>, Vec<u8>) {
    (f.0@, f.1)
}

/// Appends each entry as a file under `dir`.
fn push_files(out: &mut Vec<(String, Vec<u8>)>, dir: &str, entries: Vec<(String, Vec<u8>)>)
    ensures
        final(out)@.map_values(|f: (String, Vec<u8>)| file_view(f)) == old(out)@.map_values(
            |f: (String, Vec<u8>)| file_view(f),
        ) + files_under(dir@, entries@),
{
    let ghost start = out@;
    let ghost all = entries@;
    let mut rest = entries;
    let n = rest.len();
    let mut i: usize = 0;
    while i < n
        invariant
            n == all.len(),
            i <= n,
            rest@ == all.subrange(i as int, n as int),
            out@.map_values(|f: (String, Vec<u8>)| file_view(f)) == start.map_values(
                |f: (String, Vec<u8>)| file_view(f),
            ) + files_under(dir@, all.take(i as int)),
        decreases n - i,
    {
        let ghost before = out@;
        let (name, bytes) = rest.remove(0);
        let path = dir.to_owned().concat(name.as_str());
        out.push((path, bytes));
        i += 1;
        proof {
            assert(rest@ =~= all.subrange(i as int, n as int));
            assert(all.take(i as int).drop_last() =~= all.take(i - 1));
            assert(files_under(dir@, all.take(i as int)) =~= files_under(dir@, all.take(i - 1)).push(
                (dir@ + all[i - 1].0@, all[i - 1].1),
            ));
            assert(out@.map_values(|f: (String, Vec<u8>)| file_view(f)) =~= before.map_values(
                |f: (String, Vec<u8>)| file_view(f),
            ).push((dir@ + all[i - 1].0@, all[i - 1].1)));
        }
    }
    proof {
        assert(all.take(i as int) =~= all);
    }
}

impl SerializedCollection {
    /// The on-disk layout: each request under `requests/` and each environment under
    /// `environments/`, named by its entry, with the entry's bytes as contents.
    pub fn into_files(self) -> (r: Vec<(String, Vec<u8>)>)
        ensures
            r@.map_values(|f: (String, Vec<u8>)| file_view(f)) == files_under(
                "requests/"@,
                self.requests@,
            ) + files_under("environments/"@, self.environments@),
    {
        let mut out: Vec<(String, Vec<u8>)> = Vec::new();
        proof {
            assert(out@.map_values(|f: (String, Vec<u8>)| file_view(f)) =~= Seq::empty());
        }
        push_files(&mut out, "requests/", self.requests);
        push_files(&mut out, "environments/", self.environments);
        proof {
            assert(Seq::<(Seq<char>, Vec<u8>)>::empty() + files_under("requests/"@, self.requests@)
                =~= files_under("requests/"@, self.requests@));
        }
        out
    }
}

impl Collection {
    /// Encodes every request and every environment's values with the given encoders and
    /// keys each result by the item's name. An item whose encoding fails is left out; of
    /// items sharing a name, the last one that encoded is kept.
    pub fn serialize<ER, EV>(&self, encode_request: ER, encode_values: EV) -> (r: SerializedCollection) where
        ER: Fn(&Request) -> Option<Vec<u8>>,
        EV: Fn(&EnvironmentValues) -> Option<Vec<u8>>,

        requires
            forall|q: &Request| encode_request.requires((q,)),
            forall|v: &EnvironmentValues| encode_values.requires((v,)),
        ensures
            serialized_by(*self, encode_request, encode_values, r),
    {
        let mut requests: Vec<(String, Vec<u8>)> = Vec::new();
        let ghost mut outs: Seq<Option<Vec<u8>>> = Seq::empty();
        let mut i: usize = 0;
        while i < self.requests.len()
            invariant
                i <= self.requests.len(),
                forall|q: &Request| encode_request.requires((q,)),
                encodes_requests(encode_request, self.requests@.take(i as int), outs),
                keys_unique(requests@),
                entries_map(requests@) == frame(request_names(self.requests@.take(i as int)), outs),
            decreases self.requests.len() - i,
        {
            let req = &self.requests[i];
            let out = encode_request(req);
            let ghost prev = outs;
            proof {
                outs = outs.push(out);
            }
            match out {
                Some(bytes) => {
                    upsert(&mut requests, req.name.clone(), bytes);
                },
                None => {},
            }
            i += 1;
            proof {
                let t = self.requests@.take(i as int);
                assert(t.drop_last() =~= self.requests@.take(i - 1));
                assert(request_names(t).drop_last() =~= request_names(t.drop_last()));
                assert(outs.drop_last() =~= prev);
                assert(request_names(t).last() == self.requests@[i - 1].name@);
            }
        }
        assert(self.requests@.take(i as int) =~= self.requests@);

        let mut environments: Vec<(String, Vec<u8>)> = Vec::new();
        let ghost mut env_outs: Seq<Option<Vec<u8>>> = Seq::empty();
        let mut k: usize = 0;
        while k < self.environments.len()
            invariant
                k <= self.environments.len(),
                forall|v: &EnvironmentValues| encode_values.requires((v,)),
                encodes_environments(encode_values, self.environments@.take(k as int), env_outs),
                keys_unique(environments@),
                entries_map(environments@) == frame(
                    environment_names(self.environments@.take(k as int)),
                    env_outs,
                ),
            decreases self.environments.len() - k,
        {
            let env = &self.environments[k];
            let out = encode_values(&env.values);
            let ghost prev = env_outs;
            proof {
                env_outs = env_outs.push(out);
            }
            match out {
                Some(bytes) => {
                    upsert(&mut environments, env.name.clone(), bytes);
                },
                None => {},
            }
            k += 1;
            proof {
                let t = self.environments@.take(k as int);
                assert(t.drop_last() =~= self.environments@.take(k - 1));
                assert(environment_names(t).drop_last() =~= environment_names(t.drop_last()));
                assert(env_outs.drop_last() =~= prev);
                assert(environment_names(t).last() == self.environments@[k - 1].name@);
            }
        }
        assert(self.environments@.take(k as int) =~= self.environments@);
        SerializedCollection { requests, environments }
    }

    /// Decodes every entry with the given decoders. An entry that fails to decode is left
    /// out; an environment takes the name of its entry. The location is kept as given.
    pub fn deserialize<DR, DV>(
        save_location: PathBuf,
        ser_coll: SerializedCollection,
        decode_request: DR,
        decode_values: DV,
    ) -> (r: Collection) where
        DR: Fn(&Vec<u8>) -> Option<Request>,
        DV: Fn(&Vec<u8>) -> Option<EnvironmentValues>,

        requires
            forall|b: &Vec<u8>| decode_request.requires((b,)),
            forall|b: &Vec<u8>| decode_values.requires((b,)),
        ensures
            deserialized_by(save_location, ser_coll, decode_request, decode_values, r),
    {
        let mut requests: Vec<Request> = Vec::new();
        let ghost mut outs: Seq<Option<Request>> = Seq::empty();
        let mut j: usize = 0;
        while j < ser_coll.requests.len()
            invariant
                j <= ser_coll.requests.len(),
                forall|b: &Vec<u8>| decode_request.requires((b,)),
                decodes_entries(decode_request, ser_coll.requests@.take(j as int), outs),
                requests@ == somes(outs),
            decreases ser_coll.requests.len() - j,
        {
            let out = decode_request(&ser_coll.requests[j].1);
            let ghost prev = outs;
            proof {
                outs = outs.push(out);
            }
            match out {
                Some(req) => requests.push(req),
                None => {},
            }
            j += 1;
            proof {
                assert(outs.drop_last() =~= prev);
            }
        }
        assert(ser_coll.requests@.take(j as int) =~= ser_coll.requests@);

        let mut environments: Vec<Environment> = Vec::new();
        let ghost mut env_outs: Seq<Option<EnvironmentValues>> = Seq::empty();
        let mut k: usize = 0;
        while k < ser_coll.environments.len()
            invariant
                k <= ser_coll.environments.len(),
                forall|b: &Vec<u8>| decode_values.requires((b,)),
                decodes_entries(decode_values, ser_coll.environments@.take(k as int), env_outs),
                environments@ == named(ser_coll.environments@.take(k as int), env_outs),
            decreases ser_coll.environments.len() - k,
        {
            let out = decode_values(&ser_coll.environments[k].1);
            let ghost prev = env_outs;
            proof {
                env_outs = env_outs.push(out);
            }
            match out {
                Some(values) => {
                    environments.push(
                        Environment { name: ser_coll.environments[k].0.clone(), values },
                    );
                },
                None => {},
            }
            k += 1;
            proof {
                let t = ser_coll.environments@.take(k as int);
                assert(t.drop_last() =~= ser_coll.environments@.take(k - 1));
                assert(env_outs.drop_last() =~= prev);
            }
        }
        assert(ser_coll.environments@.take(k as int) =~= ser_coll.environments@);
        Collection { requests, environments, save_location: Some(save_location) }
    }
}

} // verus!
