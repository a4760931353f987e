use vstd::prelude::*;
use crate::env_store::EnvStore;

verus! {

#[verifier::external_type_specification]
#[verifier::external_body]
pub struct ExDotenvError(dotenvy::Error);

/// The shape of what dotenvy's parser yields for a file's bytes: for each item
/// in order, the key of a pair, or `None` for an error.
pub uninterp spec fn dotenv_keys(bytes: Seq<u8>) -> Seq<Option<Seq<char>>>;

/// Whether `items` has the shape `keys`: the same length, an error where
/// `keys` has `None`, and a pair with the given key where it has a key.
pub open spec fn shape_fits(
    items: Seq<Result<(String, String), dotenvy::Error>>,
    keys: Seq<Option<Seq<char>>>,
) -> bool {
    &&& items.len() == keys.len()
    &&& forall|i: int|
        0 <= i < items.len() ==> match #[trigger] items[i] {
            Ok(p) => keys[i] == Some(p.0@),
            Err(_) => keys[i].is_none(),
        }
}

/// Relies on dotenvy::from_read_iter: the items that dotenvy's parser yields for
/// the contents of one `.env` file, in file order, each a key and value or a
/// parse error. Which items are errors, and the keys, depend on the bytes
/// alone (line splitting, key and quote syntax); the values can depend on the
/// process environment through `${NAME}` substitution, so nothing is stated
/// of them.
#[verifier::external_body]
fn parse_dotenv(bytes: &[u8]) -> (r: Vec<Result<(String, String), dotenvy::Error>>)
    ensures
        shape_fits(r@, dotenv_keys(bytes@)),
{
    dotenvy::from_read_iter(bytes).collect()
}

/// Relies on dotenvy::Error's `Display` impl, to describe a failed layer.
#[verifier::external_body]
fn dotenv_error_text(e: &dotenvy::Error) -> (r: String) {
    e.to_string()
}

/// What was found at one candidate location of a configuration layer.
pub enum LayerInput {
    /// No file there.
    Missing,
    /// A file that could not be read, with the reason.
    Unreadable(String),
    /// The bytes of the file.
    Contents(Vec<u8>),
}

/// Outcome of loading one configuration layer.
#[derive(Clone, Debug, PartialEq, Eq)]
pub enum LayerStatus {
    /// The layer was absent.
    Skipped,
    /// Every entry of the layer was merged.
    Loaded,
    /// The layer failed with the given reason; entries before the failure were merged.
    Failed(String),
}

/// `m` with the pairs `ps` merged in order, where an already set key keeps its value.
pub open spec fn merge_pairs(
    m: Map<Seq<char>, Seq<char>>,
    ps: Seq<(Seq<char>, Seq<char>)>,
) -> Map<Seq<char>, Seq<char>>
    decreases ps.len(),
{
    if ps.len() == 0 {
        m
    } else {
        let prev = merge_pairs(m, ps.drop_last());
        let p = ps.last();
        if prev.contains_key(p.0) {
            prev
        } else {
            prev.insert(p.0, p.1)
        }
    }
}

/// Number of leading items of `items` that are pairs rather than errors.
pub open spec fn ok_prefix_len(items: Seq<Result<(String, String), dotenvy::Error>>) -> nat
    decreases items.len(),
{
    if items.len() == 0 {
        0
    } else if items[0] is Ok {
        1 + ok_prefix_len(items.drop_first())
    } else {
        0
    }
}

/// The first `n` items of `items`, which are pairs, as pairs of strings.
pub open spec fn pairs_of(
    items: Seq<Result<(String, String), dotenvy::Error>>,
    n: nat,
) -> Seq<(Seq<char>, Seq<char>)> {
    Seq::new(n, |j: int| (items[j]->Ok_0.0@, items[j]->Ok_0.1@))
}

proof fn lemma_ok_prefix_len(items: Seq<Result<(String, String), dotenvy::Error>>, i: int)
    requires
        0 <= i <= items.len(),
        forall|j: int| 0 <= j < i ==> items[j] is Ok,
        i == items.len() || items[i] is Err,
    ensures
        ok_prefix_len(items) == i,
    decreases i,
{
    if i > 0 {
        let rest = items.drop_first();
        assert forall|j: int| 0 <= j < i - 1 implies rest[j] is Ok by {
            assert(rest[j] == items[j + 1]);
        }
        if i < items.len() {
            assert(rest[i - 1] == items[i]);
        }
        lemma_ok_prefix_len(rest, i - 1);
    }
}

/// Merging two sequences of pairs one after the other is merging their concatenation.
pub proof fn lemma_merge_concat(
    m: Map<Seq<char>, Seq<char>>,
    a: Seq<(Seq<char>, Seq<char>)>,
    b: Seq<(Seq<char>, Seq<char>)>,
)
    ensures
        merge_pairs(merge_pairs(m, a), b) == merge_pairs(m, a + b),
    decreases b.len(),
{
    if b.len() == 0 {
        assert(a + b =~= a);
    } else {
        lemma_merge_concat(m, a, b.drop_last());
        assert((a + b).drop_last() =~= a + b.drop_last());
        assert((a + b).last() == b.last());
    }
}

/// Merges the leading pairs of `items` into `env`, stopping at the first error.
pub fn apply_entries(
    env: &mut EnvStore,
    items: &Vec<Result<(String, String), dotenvy::Error>>,
) -> (r: LayerStatus)
    requires
        old(env).wf(),
    ensures
        final(env).wf(),
        final(env)@ == merge_pairs(old(env)@, pairs_of(items@, ok_prefix_len(items@))),
        (r == LayerStatus::Loaded) == (ok_prefix_len(items@) == items@.len()),
        r == LayerStatus::Loaded || r is Failed,
{
    let ghost start = env@;
    let mut i: usize = 0;
    while i < items.len()
        invariant
            env.wf(),
            start == old(env)@,
            i <= items@.len(),
            forall|j: int| 0 <= j < i ==> items@[j] is Ok,
            env@ == merge_pairs(start, pairs_of(items@, i as nat)),
        decreases items@.len() - i,
    {
        match &items[i] {
            Ok(pair) => {
                let k = pair.0.clone();
                let v = pair.1.clone();
                env.insert_if_absent(k, v);
                assert(pairs_of(items@, (i + 1) as nat).drop_last() =~= pairs_of(items@, i as nat));
                i = i + 1;
            },
            Err(e) => {
                proof {
                    lemma_ok_prefix_len(items@, i as int);
                }
                return LayerStatus::Failed(dotenv_error_text(e));
            },
        }
    }
    proof {
        lemma_ok_prefix_len(items@, i as int);
    }
    LayerStatus::Loaded
}

/// The bytes of a file without a leading UTF-8 byte order mark.
pub open spec fn strip_bom_spec(b: Seq<u8>) -> Seq<u8> {
    if b.len() >= 3 && b[0] == 0xEFu8 && b[1] == 0xBBu8 && b[2] == 0xBFu8 {
        b.subrange(3, b.len() as int)
    } else {
        b
    }
}

/// Drops a leading UTF-8 byte order mark.
pub fn strip_bom(bytes: &[u8]) -> (r: &[u8])
    ensures
        r@ == strip_bom_spec(bytes@),
{
    let n = bytes.len();
    if n >= 3 && bytes[0] == 0xEF && bytes[1] == 0xBB && bytes[2] == 0xBF {
        &bytes[3..n]
    } else {
        bytes
    }
}

/// Whether `r` is the status owed for `input` whatever the parser yielded.
pub open spec fn status_fits(input: &LayerInput, r: LayerStatus) -> bool {
    match input {
        LayerInput::Missing => r == LayerStatus::Skipped,
        LayerInput::Unreadable(why) => r matches LayerStatus::Failed(m) && m@ == why@,
        LayerInput::Contents(_) => r == LayerStatus::Loaded || r is Failed,
    }
}

/// Loads one configuration layer into `env`: the pairs of a file are merged
/// in file order, and no key that is already set changes.
pub fn load_layer(env: &mut EnvStore, input: &LayerInput) -> (r: LayerStatus)
    requires
        old(env).wf(),
    ensures
        final(env).wf(),
        status_fits(input, r),
        input matches LayerInput::Contents(b) ==> exists|items: Vec<Result<(String, String), dotenvy::Error>>|
            {
                &&& shape_fits(items@, dotenv_keys(strip_bom_spec(b@)))
                &&& final(env)@ == merge_pairs(old(env)@, pairs_of(items@, ok_prefix_len(items@)))
                &&& (r == LayerStatus::Loaded) == (ok_prefix_len(items@) == items@.len())
            },
        !(input is Contents) ==> final(env)@ == old(env)@,
{
    match input {
        LayerInput::Missing => LayerStatus::Skipped,
        LayerInput::Unreadable(why) => LayerStatus::Failed(why.clone()),
        LayerInput::Contents(bytes) => {
            let items = parse_dotenv(strip_bom(bytes.as_slice()));
            apply_entries(env, &items)
        },
    }
}

/// One configuration layer after its file, if any, has been parsed.
pub enum ParsedLayer {
    /// No file there.
    Missing,
    /// A file that could not be read, with the reason.
    Unreadable(String),
    /// What the parser yielded for the file.
    Parsed(Vec<Result<(String, String), dotenvy::Error>>),
}

/// The pairs that one parsed layer merges: those before its first parse error.
pub open spec fn parsed_pairs(l: ParsedLayer) -> Seq<(Seq<char>, Seq<char>)> {
    match l {
        ParsedLayer::Parsed(items) => pairs_of(items@, ok_prefix_len(items@)),
        _ => Seq::empty(),
    }
}

/// The pairs that the layers `ls` merge, in layer order and, within a layer, in file order.
pub open spec fn layer_pairs(ls: Seq<ParsedLayer>) -> Seq<(Seq<char>, Seq<char>)>
    decreases ls.len(),
{
    if ls.len() == 0 {
        Seq::empty()
    } else {
        layer_pairs(ls.drop_last()) + parsed_pairs(ls.last())
    }
}

/// Whether `r` is the status of the parsed layer `l`.
pub open spec fn parsed_status_fits(l: ParsedLayer, r: LayerStatus) -> bool {
    match l {
        ParsedLayer::Missing => r == LayerStatus::Skipped,
        ParsedLayer::Unreadable(why) => r matches LayerStatus::Failed(m) && m@ == why@,
        ParsedLayer::Parsed(items) => {
            &&& (r == LayerStatus::Loaded) == (ok_prefix_len(items@) == items@.len())
            &&& (r == LayerStatus::Loaded || r is Failed)
        },
    }
}

/// Merges the parsed layers `layers` into `env` in order: a variable keeps the
/// value of the earliest layer that sets it, and one that `env` already holds
/// is never changed. The report holds one status per layer.
pub fn merge_layers(env: &mut EnvStore, layers: &Vec<ParsedLayer>) -> (r: Vec<LayerStatus>)
    requires
        old(env).wf(),
    ensures
        final(env).wf(),
        final(env)@ == merge_pairs(old(env)@, layer_pairs(layers@)),
        r@.len() == layers@.len(),
        forall|i: int| 0 <= i < r@.len() ==> parsed_status_fits(layers@[i], #[trigger] r@[i]),
{
    let ghost start = env@;
    let mut report: Vec<LayerStatus> = Vec::new();
    let mut i: usize = 0;
    proof {
        assert(layers@.take(0).len() == 0);
    }
    while i < layers.len()
        invariant
            env.wf(),
            start == old(env)@,
            i <= layers@.len(),
            report@.len() == i,
            forall|j: int| 0 <= j < i ==> parsed_status_fits(layers@[j], #[trigger] report@[j]),
            env@ == merge_pairs(start, layer_pairs(layers@.take(i as int))),
        decreases layers@.len() - i,
    {
        let ghost before = env@;
        let status = match &layers[i] {
            ParsedLayer::Missing => LayerStatus::Skipped,
            ParsedLayer::Unreadable(why) => LayerStatus::Failed(why.clone()),
            ParsedLayer::Parsed(items) => apply_entries(env, items),
        };
        proof {
            let prefix = layers@.take(i as int);
            let next = layers@.take(i + 1);
            assert(next.drop_last() =~= prefix);
            assert(next.last() == layers@[i as int]);
            lemma_merge_concat(start, layer_pairs(prefix), parsed_pairs(layers@[i as int]));
        }
        report.push(status);
        i = i + 1;
    }
    proof {
        assert(layers@.take(i as int) =~= layers@);
    }
    report
}

/// Whether the parsed layer `l` is what the source `input` gave.
pub open spec fn parsed_from(input: &LayerInput, l: ParsedLayer) -> bool {
    match input {
        LayerInput::Missing => l is Missing,
        LayerInput::Unreadable(why) => l matches ParsedLayer::Unreadable(w) && w@ == why@,
        LayerInput::Contents(b) => l matches ParsedLayer::Parsed(items) && shape_fits(
            items@,
            dotenv_keys(strip_bom_spec(b@)),
        ),
    }
}

/// Layers without parsed files merge no pairs.
proof fn lemma_no_parsed_no_pairs(ls: Seq<ParsedLayer>)
    requires
        forall|i: int| 0 <= i < ls.len() ==> !(#[trigger] ls[i] is Parsed),
    ensures
        layer_pairs(ls) == Seq::<(Seq<char>, Seq<char>)>::empty(),
    decreases ls.len(),
{
    if ls.len() > 0 {
        let init = ls.drop_last();
        assert forall|i: int| 0 <= i < init.len() implies !(#[trigger] init[i] is Parsed) by {
            assert(init[i] == ls[i]);
        }
        lemma_no_parsed_no_pairs(init);
        assert(!(ls[ls.len() - 1] is Parsed));
        assert(layer_pairs(ls) =~= Seq::<(Seq<char>, Seq<char>)>::empty());
    }
}

/// Loads the layers `sources` into `env` in order: each file is parsed, and
/// the parsed layers are merged as [`merge_layers`] states, so that a variable
/// keeps the value of the earliest source that sets it and one that `env`
/// already holds never changes. The report holds one status per source.
pub fn load_layers(env: &mut EnvStore, sources: &Vec<LayerInput>) -> (r: Vec<LayerStatus>)
    requires
        old(env).wf(),
    ensures
        final(env).wf(),
        r@.len() == sources@.len(),
        forall|i: int| 0 <= i < r@.len() ==> status_fits(&sources@[i], #[trigger] r@[i]),
        exists|ls: Seq<ParsedLayer>|
            {
                &&& ls.len() == sources@.len()
                &&& forall|i: int| 0 <= i < ls.len() ==> parsed_from(&sources@[i], #[trigger] ls[i])
                &&& forall|i: int| 0 <= i < ls.len() ==> parsed_status_fits(#[trigger] ls[i], r@[i])
                &&& final(env)@ == merge_pairs(old(env)@, layer_pairs(ls))
            },
        (forall|i: int| 0 <= i < sources@.len() ==> !(#[trigger] sources@[i] is Contents))
            ==> final(env)@ == old(env)@,
{
    let mut parsed: Vec<ParsedLayer> = Vec::new();
    let mut i: usize = 0;
    while i < sources.len()
        invariant
            i <= sources@.len(),
            parsed@.len() == i,
            forall|j: int| 0 <= j < i ==> parsed_from(&sources@[j], #[trigger] parsed@[j]),
        decreases sources@.len() - i,
    {
        let layer = match &sources[i] {
            LayerInput::Missing => ParsedLayer::Missing,
            LayerInput::Unreadable(why) => ParsedLayer::Unreadable(why.clone()),
            LayerInput::Contents(bytes) => ParsedLayer::Parsed(parse_dotenv(strip_bom(bytes.as_slice()))),
        };
        parsed.push(layer);
        i = i + 1;
    }
    let r = merge_layers(env, &parsed);
    proof {
        let ls = parsed@;
        assert forall|j: int| 0 <= j < r@.len() implies status_fits(&sources@[j], #[trigger] r@[j]) by {
            assert(parsed_from(&sources@[j], ls[j]));
            assert(parsed_status_fits(ls[j], r@[j]));
        }
        if forall|j: int| 0 <= j < sources@.len() ==> !(#[trigger] sources@[j] is Contents) {
            assert forall|j: int| 0 <= j < ls.len() implies !(#[trigger] ls[j] is Parsed) by {
                assert(parsed_from(&sources@[j], ls[j]));
                assert(!(sources@[j] is Contents));
            }
            lemma_no_parsed_no_pairs(ls);
        }
    }
    r
}

/// A variable that is already set keeps its value whatever pairs a layer merges.
pub proof fn law_set_variable_kept(
    m: Map<Seq<char>, Seq<char>>,
    ps: Seq<(Seq<char>, Seq<char>)>,
    k: Seq<char>,
)
    requires
        m.contains_key(k),
    ensures
        merge_pairs(m, ps).contains_key(k),
        merge_pairs(m, ps)[k] == m[k],
    decreases ps.len(),
{
    if ps.len() > 0 {
        law_set_variable_kept(m, ps.drop_last(), k);
    }
}

/// A key that neither `m` nor `ps` holds stays unset.
proof fn lemma_unset_stays_unset(
    m: Map<Seq<char>, Seq<char>>,
    ps: Seq<(Seq<char>, Seq<char>)>,
    k: Seq<char>,
)
    requires
        !m.contains_key(k),
        forall|j: int| 0 <= j < ps.len() ==> (#[trigger] ps[j]).0 != k,
    ensures
        !merge_pairs(m, ps).contains_key(k),
    decreases ps.len(),
{
    if ps.len() > 0 {
        let init = ps.drop_last();
        assert forall|j: int| 0 <= j < init.len() implies (#[trigger] init[j]).0 != k by {
            assert(init[j] == ps[j]);
        }
        lemma_unset_stays_unset(m, init, k);
        assert(ps.last() == ps[ps.len() - 1]);
    }
}

/// A variable that `m` lacks takes the value that the pairs give it, where
/// every pair for it gives the same value.
proof fn lemma_unset_takes_layer_value(
    m: Map<Seq<char>, Seq<char>>,
    ps: Seq<(Seq<char>, Seq<char>)>,
    k: Seq<char>,
    v: Seq<char>,
)
    requires
        !m.contains_key(k),
        ps.contains((k, v)),
        forall|j: int| 0 <= j < ps.len() && (#[trigger] ps[j]).0 == k ==> ps[j].1 == v,
    ensures
        merge_pairs(m, ps).contains_key(k),
        merge_pairs(m, ps)[k] == v,
    decreases ps.len(),
{
    let init = ps.drop_last();
    assert forall|j: int| 0 <= j < init.len() && (#[trigger] init[j]).0 == k implies init[j].1
        == v by {
        assert(init[j] == ps[j]);
    }
    if init.contains((k, v)) {
        lemma_unset_takes_layer_value(m, init, k, v);
    } else {
        let i = choose|i: int| 0 <= i < ps.len() && ps[i] == (k, v);
        if i < ps.len() - 1 {
            assert(init[i] == ps[i]);
        }
        assert forall|j: int| 0 <= j < init.len() implies (#[trigger] init[j]).0 != k by {
            assert(init[j] == ps[j]);
            if init[j].0 == k {
                assert(init[j] == (k, v));
            }
        }
        lemma_unset_stays_unset(m, init, k);
    }
}

/// Of two layers merged in order, the earlier one decides the value of a
/// variable that was not set before: if the first layer sets `k` to `v` and
/// the second sets it to anything else, `k` ends up as `v`.
pub proof fn law_earlier_layer_wins(
    m: Map<Seq<char>, Seq<char>>,
    first: Seq<(Seq<char>, Seq<char>)>,
    second: Seq<(Seq<char>, Seq<char>)>,
    k: Seq<char>,
    v: Seq<char>,
)
    requires
        !m.contains_key(k),
        first.contains((k, v)),
        forall|j: int| 0 <= j < first.len() && (#[trigger] first[j]).0 == k ==> first[j].1 == v,
    ensures
        merge_pairs(merge_pairs(m, first), second).contains_key(k),
        merge_pairs(merge_pairs(m, first), second)[k] == v,
{
    lemma_unset_takes_layer_value(m, first, k, v);
    law_set_variable_kept(merge_pairs(m, first), second, k);
}

/// Whether every pair of `ps` with key `k` gives it the value `v`, and one does.
pub open spec fn sets_to(ps: Seq<(Seq<char>, Seq<char>)>, k: Seq<char>, v: Seq<char>) -> bool {
    &&& ps.contains((k, v))
    &&& forall|j: int| 0 <= j < ps.len() && (#[trigger] ps[j]).0 == k ==> ps[j].1 == v
}

/// Whether no pair of `ps` has key `k`.
pub open spec fn lacks_key(ps: Seq<(Seq<char>, Seq<char>)>, k: Seq<char>) -> bool {
    forall|j: int| 0 <= j < ps.len() ==> (#[trigger] ps[j]).0 != k
}

/// Precedence when two parsed layers (say the resource directory's file, then
/// the home directory's) are merged into `m`: a variable already set keeps its
/// value; otherwise the first layer's value wins; otherwise the second layer's
/// value is taken; a variable that none of them sets stays unset.
pub proof fn law_two_layer_precedence(
    m: Map<Seq<char>, Seq<char>>,
    first: ParsedLayer,
    second: ParsedLayer,
    k: Seq<char>,
)
    ensures
        ({
            let a = parsed_pairs(first);
            let b = parsed_pairs(second);
            let r = merge_pairs(m, layer_pairs(seq![first, second]));
            &&& m.contains_key(k) ==> r.contains_key(k) && r[k] == m[k]
            &&& forall|v: Seq<char>|
                !m.contains_key(k) && #[trigger] sets_to(a, k, v) ==> r.contains_key(k) && r[k] == v
            &&& forall|v: Seq<char>|
                !m.contains_key(k) && lacks_key(a, k) && #[trigger] sets_to(b, k, v)
                    ==> r.contains_key(k) && r[k] == v
            &&& !m.contains_key(k) && lacks_key(a, k) && lacks_key(b, k) ==> !r.contains_key(k)
        }),
{
    let a = parsed_pairs(first);
    let b = parsed_pairs(second);
    let two = seq![first, second];
    assert(two.drop_last() =~= seq![first]);
    assert(seq![first].drop_last() =~= Seq::<ParsedLayer>::empty());
    assert(layer_pairs(Seq::<ParsedLayer>::empty()) == Seq::<(Seq<char>, Seq<char>)>::empty());
    assert(seq![first].last() == first);
    assert(two.last() == second);
    assert(layer_pairs(seq![first]) =~= a);
    assert(layer_pairs(two) == a + b);
    lemma_merge_concat(m, a, b);
    let mid = merge_pairs(m, a);
    if m.contains_key(k) {
        law_set_variable_kept(m, a + b, k);
    }
    assert forall|v: Seq<char>| !m.contains_key(k) && #[trigger] sets_to(a, k, v) implies merge_pairs(
        mid,
        b,
    ).contains_key(k) && merge_pairs(mid, b)[k] == v by {
        law_earlier_layer_wins(m, a, b, k, v);
    }
    if !m.contains_key(k) && lacks_key(a, k) {
        lemma_unset_stays_unset(m, a, k);
        assert forall|v: Seq<char>| #[trigger] sets_to(b, k, v) implies merge_pairs(mid, b).contains_key(
            k,
        ) && merge_pairs(mid, b)[k] == v by {
            lemma_unset_takes_layer_value(mid, b, k, v);
        }
        if lacks_key(b, k) {
            lemma_unset_stays_unset(mid, b, k);
        }
    }
}

} // verus!
