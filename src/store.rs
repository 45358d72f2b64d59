use vstd::prelude::*;
use vstd::string::StringExecFns;
use vstd::utf8::{encode_utf8, valid_utf8};

verus! {

/// Namespace of the node registry.
pub const HA_NODES_INFO: &'static str = "Ha_nodes_info";

/// Namespace of the rollback SQL archive.
pub const ROLLBACK_SQL_INFO: &'static str = "Rollback_sql_info";

/// Namespace of the change-log history.
pub const HA_CHANGE_LOG: &'static str = "Ha_change_log";

/// Namespace of generic system data.
pub const SYSTEM_DATA: &'static str = "System_data";

/// Namespace of per-node liveness state.
pub const NODES_STATE: &'static str = "Nodes_state";

/// Namespace of check-state scratch data.
pub const CHECK_STATE: &'static str = "Check_state";

/// A key and its value, both text: what the store hands in and out.
#[derive(Debug)]
pub struct KeyValue {
    pub key: String,
    pub value: String,
}

impl View for KeyValue {
    type V = (Seq<char>, Seq<char>);

    open spec fn view(&self) -> (Seq<char>, Seq<char>) {
        (self.key@, self.value@)
    }
}

impl KeyValue {
    pub fn new(key: &String, value: &String) -> (r: KeyValue)
        ensures
            r@ == (key@, value@),
    {
        KeyValue { key: key.clone(), value: value.clone() }
    }
}

/// An error of a store operation.
#[derive(Debug)]
pub enum StoreError {
    /// The named namespace does not exist in the store.
    NoColumnFamily(String),
    /// A stored key or value is not UTF-8 text.
    NotText,
}

impl StoreError {
    /// A description of the error for a log or a reply.
    pub fn message(&self) -> (r: String)
        ensures
            self matches StoreError::NoColumnFamily(n) ==> r@ == "no such namespace `"@ + n@
                + "`"@,
            self is NotText ==> r@ == "stored data is not UTF-8 text"@,
    {
        match self {
            StoreError::NoColumnFamily(name) => {
                let mut m = String::from_str("no such namespace `");
                m.append(name.as_str());
                m.append("`");
                m
            },
            StoreError::NotText => String::from_str("stored data is not UTF-8 text"),
        }
    }
}

/// Relies on `std::str::from_utf8`: it accepts exactly the UTF-8 byte
/// sequences, and the text it returns has those bytes.
#[verifier::external_body]
fn text_of_utf8(b: &[u8]) -> (r: Option<String>)
    ensures
        r is Some <==> valid_utf8(b@),
        r matches Some(t) ==> encode_utf8(t@) == b@,
{
    std::str::from_utf8(b).ok().map(|t| t.to_string())
}

/// An entry as the engine hands it out, raw key and value bytes, as text.
/// Fails with `NotText` unless both are UTF-8.
pub fn entry_of_bytes(key: &[u8], value: &[u8]) -> (r: Result<KeyValue, StoreError>)
    ensures
        r is Ok <==> valid_utf8(key@) && valid_utf8(value@),
        r matches Ok(kv) ==> encode_utf8(kv.key@) == key@ && encode_utf8(kv.value@) == value@,
        r matches Err(e) ==> e is NotText,
{
    match (text_of_utf8(key), text_of_utf8(value)) {
        (Some(k), Some(v)) => Ok(KeyValue { key: k, value: v }),
        _ => Err(StoreError::NotText),
    }
}

/// The answer to a point lookup of `key`, from the stored bytes if any:
/// `None` where nothing is stored, which differs from an empty value.
pub fn lookup_result(key: &String, stored: Option<&[u8]>) -> (r: Result<Option<KeyValue>, StoreError>)
    ensures
        stored is None ==> r matches Ok(None),
        stored matches Some(b) ==> (r is Ok <==> valid_utf8(b@)),
        stored matches Some(b) ==> (r matches Ok(Some(kv)) ==> kv.key@ == key@ && encode_utf8(
            kv.value@,
        ) == b@),
        stored is Some && r is Ok ==> r->Ok_0 is Some,
        r matches Err(e) ==> e is NotText,
{
    match stored {
        None => Ok(None),
        Some(b) => match text_of_utf8(b) {
            Some(v) => Ok(Some(KeyValue { key: key.clone(), value: v })),
            None => Err(StoreError::NotText),
        },
    }
}

/// The names held by a list of strings.
pub open spec fn names(v: Seq<String>) -> Seq<Seq<char>> {
    v.map_values(|s: String| s@)
}

/// The views of a list of entries.
pub open spec fn entries_view(v: Seq<KeyValue>) -> Seq<(Seq<char>, Seq<char>)> {
    v.map_values(|kv: KeyValue| kv@)
}

/// The required namespaces that are not among `existing`, in the order required.
pub open spec fn missing_names(required: Seq<Seq<char>>, existing: Seq<Seq<char>>) -> Seq<
    Seq<char>,
> {
    required.filter(|n: Seq<char>| !existing.contains(n))
}

/// The UTF-8 bytes of `key` begin with those of `prefix`.
pub open spec fn key_has_prefix(key: Seq<char>, prefix: Seq<char>) -> bool {
    encode_utf8(prefix).is_prefix_of(encode_utf8(key))
}

/// The entries whose key begins with `prefix`, in the order given.
pub open spec fn prefixed(entries: Seq<(Seq<char>, Seq<char>)>, prefix: Seq<char>) -> Seq<
    (Seq<char>, Seq<char>),
> {
    entries.filter(|e: (Seq<char>, Seq<char>)| key_has_prefix(e.0, prefix))
}

proof fn lemma_filter_push<A>(s: Seq<A>, x: A, pred: spec_fn(A) -> bool)
    ensures
        s.push(x).filter(pred) == (if pred(x) {
            s.filter(pred).push(x)
        } else {
            s.filter(pred)
        }),
{
    assert(s.push(x).drop_last() =~= s);
    reveal_with_fuel(Seq::filter, 1);
}

/// The names of the namespaces that the store must hold.
pub fn required_cf_names() -> (r: Vec<String>)
    ensures
        names(r@) == seq![
            HA_NODES_INFO@,
            ROLLBACK_SQL_INFO@,
            HA_CHANGE_LOG@,
            SYSTEM_DATA@,
            NODES_STATE@,
            CHECK_STATE@,
        ],
{
    let mut v: Vec<String> = Vec::new();
    v.push(HA_NODES_INFO.to_owned());
    v.push(ROLLBACK_SQL_INFO.to_owned());
    v.push(HA_CHANGE_LOG.to_owned());
    v.push(SYSTEM_DATA.to_owned());
    v.push(NODES_STATE.to_owned());
    v.push(CHECK_STATE.to_owned());
    assert(names(v@) =~= seq![
        HA_NODES_INFO@,
        ROLLBACK_SQL_INFO@,
        HA_CHANGE_LOG@,
        SYSTEM_DATA@,
        NODES_STATE@,
        CHECK_STATE@,
    ]);
    v
}

/// Whether `name` is one of `list`.
fn contains_name(list: &Vec<String>, name: &String) -> (r: bool)
    ensures
        r == names(list@).contains(name@),
{
    let mut i: usize = 0;
    while i < list.len()
        invariant
            i <= list@.len(),
            forall|j: int| 0 <= j < i ==> list@[j]@ != name@,
        decreases list@.len() - i,
    {
        if list[i] == *name {
            assert(names(list@)[i as int] == name@);
            return true;
        }
        i = i + 1;
    }
    assert(!names(list@).contains(name@)) by {
        if names(list@).contains(name@) {
            let j = choose|j: int| 0 <= j < names(list@).len() && names(list@)[j] == name@;
            assert(list@[j]@ == name@);
        }
    }
    false
}

/// Checks that the namespace `cf_name` is among `families`, the namespaces
/// the store holds; fails naming it otherwise.
pub fn check_cf(families: &Vec<String>, cf_name: &String) -> (r: Result<(), StoreError>)
    ensures
        r is Ok <==> names(families@).contains(cf_name@),
        r matches Err(e) ==> (e matches StoreError::NoColumnFamily(n) && n@ == cf_name@),
{
    if contains_name(families, cf_name) {
        Ok(())
    } else {
        Err(StoreError::NoColumnFamily(cf_name.clone()))
    }
}

/// The namespaces of `required` that are not among `existing`: those that
/// bootstrap has to create.
pub fn missing_cfs(required: &Vec<String>, existing: &Vec<String>) -> (r: Vec<String>)
    ensures
        names(r@) == missing_names(names(required@), names(existing@)),
{
    let ghost req = names(required@);
    let ghost ex = names(existing@);
    let mut out: Vec<String> = Vec::new();
    let mut i: usize = 0;
    while i < required.len()
        invariant
            i <= required@.len(),
            req == names(required@),
            ex == names(existing@),
            names(out@) == missing_names(req.subrange(0, i as int), ex),
        decreases required@.len() - i,
    {
        let present = contains_name(existing, &required[i]);
        proof {
            assert(req.subrange(0, i + 1) =~= req.subrange(0, i as int).push(req[i as int]));
            lemma_filter_push(req.subrange(0, i as int), req[i as int], |n: Seq<char>| !ex.contains(n));
        }
        if !present {
            out.push(required[i].clone());
            assert(names(out@) =~= missing_names(req.subrange(0, i as int), ex).push(
                required@[i as int]@,
            ));
        }
        i = i + 1;
    }
    assert(req.subrange(0, required@.len() as int) =~= req);
    out
}

/// Whether the UTF-8 bytes of `key` begin with those of `prefix`.
pub fn has_prefix(key: &str, prefix: &str) -> (r: bool)
    ensures
        r == key_has_prefix(key@, prefix@),
{
    let k = key.as_bytes();
    let p = prefix.as_bytes();
    if p.len() > k.len() {
        return false;
    }
    let mut i: usize = 0;
    while i < p.len()
        invariant
            i <= p@.len() <= k@.len(),
            p@ == encode_utf8(prefix@),
            k@ == encode_utf8(key@),
            forall|j: int| 0 <= j < i ==> p@[j] == k@[j],
        decreases p@.len() - i,
    {
        if p[i] != k[i] {
            assert(p@ != k@.subrange(0, p@.len() as int) && p@[i as int] != k@.subrange(0, p@.len() as int)[i as int]);
            return false;
        }
        i = i + 1;
    }
    assert(p@ =~= k@.subrange(0, p@.len() as int));
    true
}

/// The entries, of a scan in key order from `prefix` on, whose key begins
/// with `prefix`; their order is kept.
pub fn prefix_entries(prefix: &String, entries: &Vec<KeyValue>) -> (r: Vec<KeyValue>)
    ensures
        entries_view(r@) == prefixed(entries_view(entries@), prefix@),
{
    let ghost all = entries_view(entries@);
    let mut out: Vec<KeyValue> = Vec::new();
    let mut i: usize = 0;
    while i < entries.len()
        invariant
            i <= entries@.len(),
            all == entries_view(entries@),
            entries_view(out@) == prefixed(all.subrange(0, i as int), prefix@),
        decreases entries@.len() - i,
    {
        let kv = &entries[i];
        proof {
            assert(all.subrange(0, i + 1) =~= all.subrange(0, i as int).push(all[i as int]));
            lemma_filter_push(
                all.subrange(0, i as int),
                all[i as int],
                |e: (Seq<char>, Seq<char>)| key_has_prefix(e.0, prefix@),
            );
        }
        if has_prefix(kv.key.as_str(), prefix.as_str()) {
            out.push(KeyValue::new(&kv.key, &kv.value));
            assert(entries_view(out@) =~= prefixed(all.subrange(0, i as int), prefix@).push(
                all[i as int],
            ));
        }
        i = i + 1;
    }
    assert(all.subrange(0, entries@.len() as int) =~= all);
    out
}

/// Bootstrap is idempotent: once the missing namespaces are created, none
/// is missing any more, and none that existed is created again.
pub proof fn lemma_bootstrap_idempotent(required: Seq<Seq<char>>, existing: Seq<Seq<char>>)
    ensures
        missing_names(required, existing + missing_names(required, existing)).len() == 0,
        forall|n: Seq<char>|
            #[trigger] missing_names(required, existing).contains(n) ==> !existing.contains(n),
{
    let created = missing_names(required, existing);
    let pred = |n: Seq<char>| !existing.contains(n);
    let after = existing + created;
    let pred2 = |n: Seq<char>| !after.contains(n);
    assert forall|n: Seq<char>| #[trigger] created.contains(n) implies !existing.contains(n) by {
        required.lemma_filter_contains_rev(pred, n);
    }
    if missing_names(required, after).len() > 0 {
        let x = missing_names(required, after)[0];
        required.lemma_filter_pred(pred2, 0);
        required.lemma_filter_contains_rev(pred2, x);
        assert(!after.contains(x));
        let i = choose|i: int| 0 <= i < required.len() && required[i] == x;
        if !existing.contains(x) {
            required.lemma_filter_contains(pred, i);
            let j = choose|j: int| 0 <= j < created.len() && created[j] == x;
            assert(after[existing.len() + j] == x);
        } else {
            let j = choose|j: int| 0 <= j < existing.len() && existing[j] == x;
            assert(after[j] == x);
        }
    }
}

/// A prefix scan returns exactly the scanned entries whose key begins with
/// the prefix: none without it, and every one with it.
pub proof fn lemma_prefix_scan_exact(entries: Seq<(Seq<char>, Seq<char>)>, prefix: Seq<char>)
    ensures
        forall|i: int|
            0 <= i < prefixed(entries, prefix).len() ==> key_has_prefix(
                #[trigger] prefixed(entries, prefix)[i].0,
                prefix,
            ),
        forall|i: int|
            0 <= i < entries.len() && key_has_prefix(#[trigger] entries[i].0, prefix)
                ==> prefixed(entries, prefix).contains(entries[i]),
{
    let pred = |e: (Seq<char>, Seq<char>)| key_has_prefix(e.0, prefix);
    assert forall|i: int| 0 <= i < prefixed(entries, prefix).len() implies key_has_prefix(
        #[trigger] prefixed(entries, prefix)[i].0,
        prefix,
    ) by {
        entries.lemma_filter_pred(pred, i);
    }
    assert forall|i: int|
        0 <= i < entries.len() && key_has_prefix(#[trigger] entries[i].0, prefix) implies prefixed(
        entries,
        prefix,
    ).contains(entries[i]) by {
        entries.lemma_filter_contains(pred, i);
    }
}

/// The keys of `entries` ascend strictly under the order `less`.
pub open spec fn keys_ascending(
    entries: Seq<(Seq<char>, Seq<char>)>,
    less: spec_fn(Seq<char>, Seq<char>) -> bool,
) -> bool {
    forall|i: int, j: int| 0 <= i < j < entries.len() ==> less(#[trigger] entries[i].0, #[trigger] entries[j].0)
}

/// A prefix scan keeps the key order of the scan it filters: entries that
/// the engine hands out in ascending key order come back in ascending key
/// order.
pub proof fn lemma_prefix_scan_keeps_order(
    entries: Seq<(Seq<char>, Seq<char>)>,
    prefix: Seq<char>,
    less: spec_fn(Seq<char>, Seq<char>) -> bool,
)
    requires
        keys_ascending(entries, less),
    ensures
        keys_ascending(prefixed(entries, prefix), less),
    decreases entries.len(),
{
    if entries.len() > 0 {
        let init = entries.drop_last();
        let last = entries.last();
        let pred = |e: (Seq<char>, Seq<char>)| key_has_prefix(e.0, prefix);
        assert(keys_ascending(init, less)) by {
            assert forall|i: int, j: int| 0 <= i < j < init.len() implies less(
                #[trigger] init[i].0,
                #[trigger] init[j].0,
            ) by {
                assert(init[i] == entries[i] && init[j] == entries[j]);
            }
        }
        lemma_prefix_scan_keeps_order(init, prefix, less);
        assert(entries =~= init.push(last));
        lemma_filter_push(init, last, pred);
        if pred(last) {
            let p = prefixed(init, prefix);
            let q = p.push(last);
            assert forall|i: int, j: int| 0 <= i < j < q.len() implies less(
                #[trigger] q[i].0,
                #[trigger] q[j].0,
            ) by {
                if j == p.len() {
                    assert(p.contains(p[i]));
                    init.lemma_filter_contains_rev(pred, p[i]);
                    let k = choose|k: int| 0 <= k < init.len() && init[k] == p[i];
                    assert(entries[k] == init[k] && entries[entries.len() - 1] == last);
                } else {
                    assert(q[i] == p[i] && q[j] == p[j]);
                }
            }
        }
    }
}

} // verus!
