//! Guild settings and name-history records kept as BSON documents: reading a
//! string field with a fallback, and the defaults that every guild's settings
//! document must carry.

use vstd::prelude::*;
use bson::{Bson, Document};

verus! {

#[verifier::external_type_specification]
#[verifier::external_body]
pub struct ExDocument(Document);

/// What a BSON document holds, as this library reads it: for each key, the
/// string stored under it, or `None` where the value stored there is not a
/// string.
pub uninterp spec fn doc_fields(d: Document) -> Map<Seq<char>, Option<Seq<char>>>;

/// `bson::Document::contains_key`: whether the document holds a value, of
/// any type, under `field`.
#[verifier::external_body]
pub fn doc_contains_key(doc: &Document, field: &str) -> (res: bool)
    ensures
        res == doc_fields(*doc).dom().contains(field@),
{
    doc.contains_key(field)
}

/// `bson::Document::get`: the value stored under `field`, told apart by
/// variant: `None` where the key is absent, `Some(Some(s))` for the string
/// `s`, `Some(None)` for a value of another type.
#[verifier::external_body]
fn doc_get(doc: &Document, field: &str) -> (res: Option<Option<String>>)
    ensures
        res.deep_view() == doc_fields(*doc).get(field@),
{
    match doc.get(field) {
        None => None,
        Some(Bson::String(s)) => Some(Some(s.clone())),
        Some(_) => Some(None),
    }
}

/// The string stored under `field` in `doc`, or `def` when there is no
/// document, no such key, or a value that is not a string.
pub open spec fn value_for_key(doc: Option<Document>, field: Seq<char>, def: Seq<char>) -> Seq<char> {
    match doc {
        Some(d) => match doc_fields(d).get(field) {
            Some(Some(s)) => s,
            _ => def,
        },
        None => def,
    }
}

/// Reads the string setting `field` of an optional document, falling back to
/// `def`.
pub fn get_value_for_key(doc: &Option<Document>, field: String, def: String) -> (res: String)
    ensures
        res@ == value_for_key(*doc, field@, def@),
{
    match doc {
        Some(d) => match doc_get(d, field.as_str()) {
            Some(Some(s)) => s,
            _ => def,
        },
        None => def,
    }
}

/// Whether an optional document exists and holds a value under `field`.
pub fn contains_key(doc: &Option<Document>, field: &String) -> (res: bool)
    ensures
        res == match *doc {
            Some(d) => doc_fields(d).dom().contains(field@),
            None => false,
        },
{
    match doc {
        Some(d) => doc_contains_key(d, field.as_str()),
        None => false,
    }
}


/// A map of settings keyed by name.
pub type Fields = Map<Seq<char>, Option<Seq<char>>>;

/// The features every guild's settings carry, with the default values that
/// the `set` command documents (`0` standing for "no role"), in the order in
/// which they are stored.
pub open spec fn default_settings() -> Seq<(Seq<char>, Seq<char>)> {
    seq![
        ("active_welcome"@, "false"@),
        ("assign_new_member"@, "false"@),
        ("welcome_message"@, "Welcome!"@),
        ("new_member_role"@, "0"@),
        ("prefix"@, "tg!"@),
        ("staff_id"@, "0"@),
    ]
}

/// The entries of `defs` whose key is not in `present`, in order.
pub open spec fn missing_settings(defs: Seq<(Seq<char>, Seq<char>)>, present: Set<Seq<char>>) -> Seq<
    (Seq<char>, Seq<char>),
>
    decreases defs.len(),
{
    if defs.len() == 0 {
        seq![]
    } else {
        let rest = missing_settings(defs.drop_last(), present);
        if present.contains(defs.last().0) {
            rest
        } else {
            rest.push(defs.last())
        }
    }
}

/// The settings after storing each `(key, value)` of `updates` in turn, as a
/// `$set` of that key does.
pub open spec fn with_settings(fields: Fields, updates: Seq<(Seq<char>, Seq<char>)>) -> Fields
    decreases updates.len(),
{
    if updates.len() == 0 {
        fields
    } else {
        with_settings(fields, updates.drop_last()).insert(updates.last().0, Some(updates.last().1))
    }
}

/// The keys already present in an optional settings document.
pub open spec fn present_keys(doc: Option<Document>) -> Set<Seq<char>> {
    match doc {
        Some(d) => doc_fields(d).dom(),
        None => Set::empty(),
    }
}

/// What to do with a guild's settings document at start-up.
#[derive(Debug)]
pub struct ValidatePlan {
    /// The guild has no settings document yet: create one for it.
    pub create: bool,
    /// The `(key, default value)` pairs to store, in order.
    pub defaults: Vec<(String, String)>,
}

fn default_settings_vec() -> (res: Vec<(String, String)>)
    ensures
        res.deep_view() == default_settings(),
{
    let res = vec![
        (String::from_str("active_welcome"), String::from_str("false")),
        (String::from_str("assign_new_member"), String::from_str("false")),
        (String::from_str("welcome_message"), String::from_str("Welcome!")),
        (String::from_str("new_member_role"), String::from_str("0")),
        (String::from_str("prefix"), String::from_str("tg!")),
        (String::from_str("staff_id"), String::from_str("0")),
    ];
    assert(res.deep_view() =~= default_settings());
    res
}

proof fn lemma_missing_of_nothing(defs: Seq<(Seq<char>, Seq<char>)>)
    ensures
        missing_settings(defs, Set::empty()) == defs,
    decreases defs.len(),
{
    if defs.len() > 0 {
        lemma_missing_of_nothing(defs.drop_last());
        assert(defs.drop_last().push(defs.last()) =~= defs);
    }
}

/// Decides, from the guild's settings document as it was fetched (if any),
/// whether to create the document and which default features to store.
pub fn validate(guild_settings: &Option<Document>) -> (plan: ValidatePlan)
    ensures
        plan.create == guild_settings.is_none(),
        plan.defaults.deep_view() == missing_settings(default_settings(), present_keys(*guild_settings)),
        guild_settings.is_none() ==> plan.defaults.deep_view() == default_settings(),
{
    let defs = default_settings_vec();
    let mut out: Vec<(String, String)> = Vec::new();
    let mut i: usize = 0;
    while i < defs.len()
        invariant
            defs.deep_view() == default_settings(),
            i <= defs.len(),
            out.deep_view() == missing_settings(
                default_settings().take(i as int),
                present_keys(*guild_settings),
            ),
        decreases defs.len() - i,
    {
        let present = contains_key(guild_settings, &defs[i].0);
        let ghost before = out.deep_view();
        assert(default_settings().take(i + 1).drop_last() =~= default_settings().take(i as int));
        assert(default_settings().take(i + 1).last() == defs.deep_view()[i as int]);
        if !present {
            out.push((defs[i].0.clone(), defs[i].1.clone()));
            assert(out.deep_view() =~= before.push(defs.deep_view()[i as int]));
        }
        i = i + 1;
    }
    assert(default_settings().take(defs.len() as int) =~= default_settings());
    proof {
        lemma_missing_of_nothing(default_settings());
    }
    ValidatePlan { create: guild_settings.is_none(), defaults: out }
}

proof fn lemma_with_missing(fields: Fields, defs: Seq<(Seq<char>, Seq<char>)>)
    ensures
        forall|i: int| #![trigger defs[i]]
            0 <= i < defs.len() ==> with_settings(fields, missing_settings(defs, fields.dom())).dom().contains(
                defs[i].0,
            ),
        forall|k: Seq<char>| #[trigger]
            fields.dom().contains(k) ==> with_settings(fields, missing_settings(defs, fields.dom())).dom().contains(k)
                && with_settings(fields, missing_settings(defs, fields.dom()))[k] == fields[k],
        forall|j: int| #![trigger missing_settings(defs, fields.dom())[j]]
            0 <= j < missing_settings(defs, fields.dom()).len() ==> !fields.dom().contains(
                missing_settings(defs, fields.dom())[j].0,
            ),
    decreases defs.len(),
{
    if defs.len() > 0 {
        let init = defs.drop_last();
        lemma_with_missing(fields, init);
        let m0 = missing_settings(init, fields.dom());
        let m = missing_settings(defs, fields.dom());
        if !fields.dom().contains(defs.last().0) {
            assert(m.drop_last() =~= m0);
        }
        assert forall|i: int| #![trigger defs[i]] 0 <= i < defs.len() implies with_settings(
            fields,
            m,
        ).dom().contains(defs[i].0) by {
            if i < defs.len() - 1 {
                assert(init[i] == defs[i]);
            }
        }
    }
}

/// Start-up validation completes a guild's settings: once every planned
/// default has been stored, each default feature is present, and every
/// setting the guild already had keeps its value.
pub proof fn lemma_validate_completes_settings(fields: Fields)
    ensures
        forall|i: int| #![trigger default_settings()[i]]
            0 <= i < default_settings().len() ==> with_settings(
                fields,
                missing_settings(default_settings(), fields.dom()),
            ).dom().contains(default_settings()[i].0),
        forall|k: Seq<char>| #[trigger]
            fields.dom().contains(k) ==> with_settings(
                fields,
                missing_settings(default_settings(), fields.dom()),
            ).dom().contains(k) && with_settings(
                fields,
                missing_settings(default_settings(), fields.dom()),
            )[k] == fields[k],
{
    lemma_with_missing(fields, default_settings());
}


/// Reading a setting after storing it gives back the stored value: a
/// document whose fields are `fields` with `key` set to `value` reads
/// `value` under `key`, whatever the fallback.
pub proof fn lemma_read_after_set(doc: Document, fields: Fields, key: Seq<char>, value: Seq<char>, def: Seq<char>)
    requires
        doc_fields(doc) == with_settings(fields, seq![(key, value)]),
    ensures
        value_for_key(Some(doc), key, def) == value,
{
    assert(seq![(key, value)].drop_last() =~= Seq::<(Seq<char>, Seq<char>)>::empty());
}


proof fn lemma_nothing_missing(defs: Seq<(Seq<char>, Seq<char>)>, present: Set<Seq<char>>)
    requires
        forall|i: int| 0 <= i < defs.len() ==> present.contains(#[trigger] defs[i].0),
    ensures
        missing_settings(defs, present) == Seq::<(Seq<char>, Seq<char>)>::empty(),
    decreases defs.len(),
{
    if defs.len() > 0 {
        let init = defs.drop_last();
        assert forall|i: int| 0 <= i < init.len() implies present.contains(#[trigger] init[i].0) by {
            assert(init[i] == defs[i]);
        }
        lemma_nothing_missing(init, present);
        assert(present.contains(defs[defs.len() - 1].0));
    }
}

proof fn lemma_with_settings_has_keys(fields: Fields, updates: Seq<(Seq<char>, Seq<char>)>)
    ensures
        forall|i: int| 0 <= i < updates.len() ==> with_settings(fields, updates).dom().contains(
            #[trigger] updates[i].0,
        ),
    decreases updates.len(),
{
    if updates.len() > 0 {
        let init = updates.drop_last();
        lemma_with_settings_has_keys(fields, init);
        assert forall|i: int| 0 <= i < updates.len() implies with_settings(fields, updates).dom().contains(
            #[trigger] updates[i].0,
        ) by {
            if i < updates.len() - 1 {
                assert(init[i] == updates[i]);
            }
        }
    }
}

/// Start-up validation is idempotent: once the defaults it planned for a
/// guild's settings are stored, validating again plans nothing; and a
/// settings document created with every default needs nothing more.
pub proof fn lemma_validate_idempotent(fields: Fields)
    ensures
        missing_settings(
            default_settings(),
            with_settings(fields, missing_settings(default_settings(), fields.dom())).dom(),
        ) == Seq::<(Seq<char>, Seq<char>)>::empty(),
        missing_settings(default_settings(), with_settings(fields, default_settings()).dom())
            == Seq::<(Seq<char>, Seq<char>)>::empty(),
{
    lemma_with_missing(fields, default_settings());
    let after = with_settings(fields, missing_settings(default_settings(), fields.dom()));
    assert forall|i: int| 0 <= i < default_settings().len() implies after.dom().contains(
        #[trigger] default_settings()[i].0,
    ) by {}
    lemma_nothing_missing(default_settings(), after.dom());
    lemma_with_settings_has_keys(fields, default_settings());
    lemma_nothing_missing(default_settings(), with_settings(fields, default_settings()).dom());
}

/// The command prefix of a guild: its `prefix` setting, `tg!` when unset.
pub fn guild_prefix(guild_settings: &Option<Document>) -> (res: String)
    ensures
        res@ == value_for_key(*guild_settings, "prefix"@, "tg!"@),
{
    get_value_for_key(guild_settings, String::from_str("prefix"), String::from_str("tg!"))
}

} // verus!
