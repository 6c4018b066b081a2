//! The entity tree of a document-understanding response, and how typed receipt
//! fields are resolved from it.
use vstd::prelude::*;
use crate::decimal::{
    chars_of, decimal_amount, integer_value, keep_number_chars, number_chars, parse_decimal,
    parse_integer, Amount,
};
use crate::text::{date_text, format_date};

verus! {

/// How deep below a top-level entity the amount search descends.
pub const MAX_ENTITY_DEPTH: u32 = 32;

/// A money value: whole units as a decimal string, and billionths.
pub struct MoneyValue {
    pub units: Option<String>,
    pub nanos: Option<i64>,
}

/// A calendar date whose parts may each be missing.
pub struct DateValue {
    pub year: Option<i32>,
    pub month: Option<i32>,
    pub day: Option<i32>,
}

/// The value a recogniser normalised an entity to.
pub struct NormalizedValue {
    pub text: Option<String>,
    pub money_value: Option<MoneyValue>,
    pub date_value: Option<DateValue>,
}

/// One node of the entity tree; `properties` are its children, in order.
pub struct EntityNode {
    pub entity_type: Option<String>,
    pub mention_text: Option<String>,
    pub normalized_value: Option<NormalizedValue>,
    pub properties: Vec<EntityNode>,
}

pub open spec fn opt_view(o: Option<String>) -> Option<Seq<char>> {
    match o {
        Some(s) => Some(s@),
        None => None,
    }
}

pub open spec fn type_names(types: Seq<String>) -> Seq<Seq<char>> {
    types.map_values(|s: String| s@)
}

pub open spec fn has_type(e: EntityNode, t: Seq<char>) -> bool {
    opt_view(e.entity_type) == Some(t)
}

/// The first index at or after `i` whose entity has type `t`.
pub open spec fn first_of_type(es: Seq<EntityNode>, t: Seq<char>, i: int) -> Option<int>
    decreases es.len() - i,
{
    if 0 <= i < es.len() {
        if has_type(es[i], t) {
            Some(i)
        } else {
            first_of_type(es, t, i + 1)
        }
    } else {
        None
    }
}

/// The first entity of the first type, from the `k`-th on, that any entity has.
pub open spec fn find_from(es: Seq<EntityNode>, types: Seq<Seq<char>>, k: int) -> Option<int>
    decreases types.len() - k,
{
    if 0 <= k < types.len() {
        match first_of_type(es, types[k], 0) {
            Some(i) => Some(i),
            None => find_from(es, types, k + 1),
        }
    } else {
        None
    }
}

/// The entity chosen for a priority list of types: type priority before document order.
pub open spec fn find_spec(es: Seq<EntityNode>, types: Seq<Seq<char>>) -> Option<int> {
    find_from(es, types, 0)
}

/// The text an entity resolves to.
pub open spec fn text_of(e: EntityNode) -> Option<Seq<char>> {
    let mention = opt_view(e.mention_text);
    match e.normalized_value {
        Some(nv) => match nv.text {
            Some(t) => Some(t@),
            None => match nv.date_value {
                Some(d) => if d.year is Some && d.month is Some && d.day is Some {
                    Some(date_text(d.year->0 as int, d.month->0 as int, d.day->0 as int))
                } else {
                    mention
                },
                None => mention,
            },
        },
        None => mention,
    }
}

/// Whole units (zero where they do not read as an integer) plus billionths,
/// if the sum is not negative.
pub open spec fn money_amount(m: MoneyValue) -> Option<nat> {
    let units: int = match m.units {
        Some(u) => match integer_value(u@) {
            Some(v) => v,
            None => 0,
        },
        None => 0,
    };
    let nanos: int = match m.nanos {
        Some(n) => n as int,
        None => 0,
    };
    let total = units * 1_000_000_000 + nanos;
    if total >= 0 {
        Some(total as nat)
    } else {
        None
    }
}

/// The amount given by the normalised value: money first, then text.
pub open spec fn normalized_amount(e: EntityNode) -> Option<nat> {
    match e.normalized_value {
        Some(nv) => {
            let money = match nv.money_value {
                Some(m) => money_amount(m),
                None => None,
            };
            if money is Some {
                money
            } else {
                match nv.text {
                    Some(t) => decimal_amount(t@),
                    None => None,
                }
            }
        },
        None => None,
    }
}

/// The amount read from the mention text once all but digits and points are dropped.
pub open spec fn mention_amount(e: EntityNode) -> Option<nat> {
    match e.mention_text {
        Some(t) => decimal_amount(number_chars(t@)),
        None => None,
    }
}

/// The amount an entity gives by itself, without looking at its children.
pub open spec fn own_amount(e: EntityNode) -> Option<nat> {
    if normalized_amount(e) is Some {
        normalized_amount(e)
    } else {
        mention_amount(e)
    }
}

/// The amount of an entity, searching its children depth-first up to `depth` levels down.
pub open spec fn amount_of(e: EntityNode, depth: nat) -> Option<nat>
    decreases depth, 0int,
{
    if own_amount(e) is Some {
        own_amount(e)
    } else if depth == 0 {
        None
    } else {
        amount_from(e.properties@, (depth - 1) as nat, 0)
    }
}

/// The amount of the first child, from the `i`-th on, that has one.
pub open spec fn amount_from(cs: Seq<EntityNode>, depth: nat, i: int) -> Option<nat>
    decreases depth, cs.len() - i,
{
    if 0 <= i < cs.len() {
        match amount_of(cs[i], depth) {
            Some(a) => Some(a),
            None => amount_from(cs, depth, i + 1),
        }
    } else {
        None
    }
}

pub open spec fn amount_view(a: Option<Amount>) -> Option<nat> {
    match a {
        Some(x) => Some(x.value()),
        None => None,
    }
}

proof fn lemma_first_of_type(es: Seq<EntityNode>, t: Seq<char>, i: int)
    requires
        0 <= i <= es.len(),
    ensures
        match first_of_type(es, t, i) {
            Some(x) => i <= x < es.len() && has_type(es[x], t) && forall|y: int|
                i <= y < x ==> !has_type(#[trigger] es[y], t),
            None => forall|y: int| i <= y < es.len() ==> !has_type(#[trigger] es[y], t),
        },
    decreases es.len() - i,
{
    if i < es.len() {
        lemma_first_of_type(es, t, i + 1);
    }
}

proof fn lemma_find_skips_absent(es: Seq<EntityNode>, types: Seq<Seq<char>>, k2: int, k: int)
    requires
        0 <= k2 <= k < types.len(),
        forall|a: int, j: int|
            0 <= a < k && 0 <= j < es.len() ==> #[trigger] has_type(es[j], types[a]) == false,
    ensures
        find_from(es, types, k2) == find_from(es, types, k),
    decreases k - k2,
{
    if k2 < k {
        lemma_first_of_type(es, types[k2], 0);
        if first_of_type(es, types[k2], 0) is Some {
            let x = first_of_type(es, types[k2], 0)->0;
            assert(!has_type(es[x], types[k2]));
        }
        lemma_find_skips_absent(es, types, k2 + 1, k);
    }
}

/// Type priority dominates document order: when some entity has the type at
/// position `k` of the list and none has a type listed before it, the chosen
/// entity is the first of that type, however many entities of later-listed
/// types stand before it.
pub proof fn lemma_priority_dominates(es: Seq<EntityNode>, types: Seq<Seq<char>>, k: int, j: int)
    requires
        0 <= k < types.len(),
        0 <= j < es.len(),
        has_type(es[j], types[k]),
        forall|a: int, y: int|
            0 <= a < k && 0 <= y < es.len() ==> #[trigger] has_type(es[y], types[a]) == false,
    ensures
        find_spec(es, types) matches Some(i) && i <= j && has_type(es[i], types[k]) && forall|y: int|
            0 <= y < i ==> !has_type(#[trigger] es[y], types[k]),
{
    lemma_find_skips_absent(es, types, 0, k);
    lemma_first_of_type(es, types[k], 0);
}

fn type_matches(e: &EntityNode, t: &String) -> (r: bool)
    ensures
        r == has_type(*e, t@),
{
    match &e.entity_type {
        Some(s) => s.eq(t),
        None => false,
    }
}

/// Picks the entity for a priority list of types: the first entity of the first
/// type in `types` that any entity has, whatever the order of the entities.
pub fn find_entity(entities: &Vec<EntityNode>, types: &Vec<String>) -> (r: Option<usize>)
    ensures
        r matches Some(i) ==> i < entities@.len(),
        match r {
            Some(i) => find_spec(entities@, type_names(types@)) == Some(i as int),
            None => find_spec(entities@, type_names(types@)) is None,
        },
{
    let ghost names = type_names(types@);
    let mut k: usize = 0;
    while k < types.len()
        invariant
            k <= types@.len(),
            names == type_names(types@),
            find_from(entities@, names, k as int) == find_from(entities@, names, 0),
        decreases types@.len() - k,
    {
        let t = &types[k];
        assert(names[k as int] == t@);
        let mut i: usize = 0;
        while i < entities.len()
            invariant
                k < types@.len(),
                names == type_names(types@),
                names[k as int] == t@,
                find_from(entities@, names, k as int) == find_from(entities@, names, 0),
                i <= entities@.len(),
                first_of_type(entities@, t@, i as int) == first_of_type(entities@, t@, 0),
            decreases entities@.len() - i,
        {
            if type_matches(&entities[i], t) {
                assert(first_of_type(entities@, t@, i as int) == Some(i as int));
                assert(find_from(entities@, names, k as int) == Some(i as int));
                return Some(i);
            }
            i = i + 1;
        }
        k = k + 1;
    }
    None
}

/// The text of an entity: its normalised text, else its normalised date as
/// `YYYY-MM-DD`, else its mention text.
pub fn resolve_text(entity: &EntityNode) -> (r: Option<String>)
    ensures
        opt_view(r) == text_of(*entity),
{
    if let Some(nv) = &entity.normalized_value {
        if let Some(t) = &nv.text {
            return Some(t.clone());
        }
        if let Some(d) = &nv.date_value {
            if let (Some(y), Some(m), Some(dd)) = (d.year, d.month, d.day) {
                return Some(format_date(y, m, dd));
            }
        }
    }
    match &entity.mention_text {
        Some(t) => Some(t.clone()),
        None => None,
    }
}

fn money_to_amount(m: &MoneyValue) -> (r: Option<Amount>)
    ensures
        amount_view(r) == money_amount(*m),
{
    let units: i64 = match &m.units {
        Some(u) => match parse_integer(&chars_of(u.as_str())) {
            Some(v) => v,
            None => 0,
        },
        None => 0,
    };
    let nanos: i64 = match m.nanos {
        Some(n) => n,
        None => 0,
    };
    let total: i128 = units as i128 * 1_000_000_000 + nanos as i128;
    if total >= 0 {
        Some(Amount { billionths: total as u128 })
    } else {
        None
    }
}

fn own_amount_exec(e: &EntityNode) -> (r: Option<Amount>)
    ensures
        amount_view(r) == own_amount(*e),
{
    if let Some(nv) = &e.normalized_value {
        if let Some(m) = &nv.money_value {
            let a = money_to_amount(m);
            if a.is_some() {
                return a;
            }
        }
        if let Some(t) = &nv.text {
            let a = parse_decimal(&chars_of(t.as_str()));
            if a.is_some() {
                return a;
            }
        }
    }
    match &e.mention_text {
        Some(t) => parse_decimal(&keep_number_chars(&chars_of(t.as_str()))),
        None => None,
    }
}

fn amount_within(e: &EntityNode, depth: u32) -> (r: Option<Amount>)
    ensures
        amount_view(r) == amount_of(*e, depth as nat),
    decreases depth,
{
    let own = own_amount_exec(e);
    if own.is_some() {
        return own;
    }
    if depth == 0 {
        return None;
    }
    let cs = &e.properties;
    let mut i: usize = 0;
    while i < cs.len()
        invariant
            depth > 0,
            own_amount(*e) is None,
            i <= cs@.len(),
            cs == &e.properties,
            amount_from(cs@, (depth - 1) as nat, i as int) == amount_from(
                cs@,
                (depth - 1) as nat,
                0,
            ),
        decreases cs@.len() - i,
    {
        let a = amount_within(&cs[i], depth - 1);
        if a.is_some() {
            assert(amount_from(cs@, (depth - 1) as nat, i as int) == amount_view(a));
            return a;
        }
        i = i + 1;
    }
    None
}

/// The amount of an entity: its normalised money, else its normalised text read
/// as a decimal, else the digits and points of its mention text read as a
/// decimal, else the first amount found depth-first among its children.
pub fn resolve_total(entity: &EntityNode) -> (r: Option<Amount>)
    ensures
        amount_view(r) == amount_of(*entity, MAX_ENTITY_DEPTH as nat),
{
    amount_within(entity, MAX_ENTITY_DEPTH)
}

} // verus!
