//! Which value each parameter of a prepared statement is bound to.
//!
//! A statement's parameters are numbered from 1. Each one is either unnamed
//! (`?`), numbered (`?NNN`) or named (`:name`, `@name`, `$name`). Parameters
//! are bound either from the fields of a struct, by name or in field order,
//! or from the items of a list, by position.

use vstd::prelude::*;
use crate::error::{Error, ErrorModel, string_views};
use crate::text::{decimal, lemma_parse_decimal_roundtrip, parse_usize, parsed_usize};
use crate::sqlite::{
    bind_value, clear_bindings, no_bindings, parameter_count, parameter_name, statement_bindings,
    statement_param_names,
};
use rusqlite::types::Value as SqlValue;
use rusqlite::Statement;

verus! {

/// `c` introduces a named parameter in SQLite's syntax.
pub open spec fn is_name_sigil(c: char) -> bool {
    c == ':' || c == '@' || c == '$'
}

/// The first index at or after `from` where `names` holds `target`.
pub open spec fn first_index_from(names: Seq<Seq<char>>, target: Seq<char>, from: nat) -> Option<
    nat,
>
    decreases names.len() - from,
{
    if from >= names.len() {
        None
    } else if names[from as int] == target {
        Some(from)
    } else {
        first_index_from(names, target, from + 1)
    }
}

/// The first index where `names` holds `target`.
pub open spec fn first_index_of(names: Seq<Seq<char>>, target: Seq<char>) -> Option<nat> {
    first_index_from(names, target, 0)
}

/// The slot of a parameter written `?` or `?NNN` (`name` starts with `?`):
/// the next position for a bare `?`, position `NNN - 1` (0 for `?0`) for a
/// numbered one, which leaves the cursor of bare parameters where it was.
pub open spec fn numbered_slot(name: Seq<char>, cursor: nat) -> Result<(nat, nat), ErrorModel> {
    let digits = name.drop_first();
    if digits.len() == 0 {
        Ok((cursor, cursor + 1))
    } else {
        match parsed_usize(digits) {
            Some(raw) => Ok((if raw == 0 { 0 } else { (raw - 1) as nat }, cursor)),
            None => Err(ErrorModel::MissingNamedParam { parameter: name }),
        }
    }
}

/// The slot (index of the value to bind) of the parameter numbered `index`,
/// whose name is `name`, and the cursor of bare parameters after it.
///
/// With `fields` present the values are the fields of a struct, with these
/// names; without, they are the `count` items of a list, which have no names.
pub open spec fn param_slot(
    fields: Option<Seq<Seq<char>>>,
    count: nat,
    name: Option<Seq<char>>,
    cursor: nat,
    index: nat,
) -> Result<(nat, nat), ErrorModel> {
    match fields {
        Some(field_names) => match name {
            Some(n) => if n.len() > 0 && is_name_sigil(n[0]) {
                match first_index_of(field_names, n.drop_first()) {
                    Some(i) => Ok((i, cursor)),
                    None => Err(ErrorModel::MissingNamedParam { parameter: n }),
                }
            } else if n.len() > 0 && n[0] == '?' {
                numbered_slot(n, cursor)
            } else {
                Err(ErrorModel::UnnamedParameter { index })
            },
            None => if cursor >= count {
                Err(ErrorModel::UnnamedParameter { index })
            } else {
                Ok((cursor, cursor + 1))
            },
        },
        None => match name {
            Some(n) => if n.len() > 0 && n[0] == '?' {
                numbered_slot(n, cursor)
            } else {
                Err(ErrorModel::MissingNamedParam { parameter: n })
            },
            None => Ok((cursor, cursor + 1)),
        },
    }
}

/// The slots of the first `k` parameters, in order, with the cursor of bare
/// parameters after them; or the error of the first parameter that has no
/// slot, or whose slot names no value.
pub open spec fn plan_prefix(
    fields: Option<Seq<Seq<char>>>,
    count: nat,
    names: Seq<Option<Seq<char>>>,
    k: nat,
) -> Result<(Seq<nat>, nat), ErrorModel>
    decreases k,
{
    if k == 0 {
        Ok((Seq::empty(), 0))
    } else {
        match plan_prefix(fields, count, names, (k - 1) as nat) {
            Err(e) => Err(e),
            Ok((plan, cursor)) => match param_slot(fields, count, names[k - 1], cursor, k) {
                Err(e) => Err(e),
                Ok((slot, next)) => if slot < count {
                    Ok((plan.push(slot), next))
                } else {
                    Err(ErrorModel::UnnamedParameter { index: k })
                },
            },
        }
    }
}

/// The names of the first `j` fields that no parameter is bound to, in field
/// order.
pub open spec fn unused_prefix(fields: Seq<Seq<char>>, plan: Seq<nat>, j: nat) -> Seq<Seq<char>>
    decreases j,
{
    if j == 0 {
        Seq::empty()
    } else if plan.contains((j - 1) as nat) {
        unused_prefix(fields, plan, (j - 1) as nat)
    } else {
        unused_prefix(fields, plan, (j - 1) as nat).push(fields[j - 1])
    }
}

/// How many of the first `j` values some parameter is bound to.
pub open spec fn used_count_prefix(plan: Seq<nat>, j: nat) -> nat
    decreases j,
{
    if j == 0 {
        0
    } else if plan.contains((j - 1) as nat) {
        used_count_prefix(plan, (j - 1) as nat) + 1
    } else {
        used_count_prefix(plan, (j - 1) as nat)
    }
}

/// Binding a statement whose parameters have the names `names` (`None` for an
/// unnamed one) from struct fields named `fields`: the index of the field
/// that each parameter takes, in parameter order, or the error.
pub open spec fn named_binding(fields: Seq<Seq<char>>, names: Seq<Option<Seq<char>>>) -> Result<
    Seq<nat>,
    ErrorModel,
> {
    match plan_prefix(Some(fields), fields.len(), names, names.len()) {
        Err(e) => Err(e),
        Ok((plan, _)) => {
            let unused = unused_prefix(fields, plan, fields.len());
            if unused.len() == 0 {
                Ok(plan)
            } else {
                Err(ErrorModel::UnusedParamFields { fields: unused })
            }
        },
    }
}

/// Binding a statement whose parameters have the names `names` from a list
/// of `count` values: the index of the value that each parameter takes, in
/// parameter order, or the error.
pub open spec fn list_binding(count: nat, names: Seq<Option<Seq<char>>>) -> Result<
    Seq<nat>,
    ErrorModel,
> {
    match plan_prefix(None, count, names, names.len()) {
        Err(e) => Err(e),
        Ok((plan, _)) => {
            let used = used_count_prefix(plan, count);
            if used == count {
                Ok(plan)
            } else {
                Err(ErrorModel::UnusedPositionalParams { provided: count, used })
            }
        },
    }
}

/// The characters of each present name.
pub open spec fn name_views(v: Seq<Option<String>>) -> Seq<Option<Seq<char>>> {
    v.map_values(|n: Option<String>| match n {
        Some(s) => Some(s@),
        None => None,
    })
}

/// Indices taken as mathematical integers.
pub open spec fn index_views(v: Seq<usize>) -> Seq<nat> {
    v.map_values(|i: usize| i as nat)
}

/// The model of a computed plan.
pub open spec fn plan_model(r: Result<Vec<usize>, Error>) -> Result<Seq<nat>, ErrorModel> {
    match r {
        Ok(v) => Ok(index_views(v@)),
        Err(e) => Err(e.model()),
    }
}

/// The model of a computed slot.
pub open spec fn slot_model(r: Result<(usize, usize), Error>) -> Result<(nat, nat), ErrorModel> {
    match r {
        Ok((s, c)) => Ok((s as nat, c as nat)),
        Err(e) => Err(e.model()),
    }
}

/// The first index of `target` in `names`.
pub fn find_name(names: &Vec<String>, target: &String) -> (r: Option<usize>)
    ensures
        match first_index_of(string_views(names@), target@) {
            Some(i) => r matches Some(j) && j as nat == i && j < names.len(),
            None => r is None,
        },
{
    let ghost views = string_views(names@);
    let mut i: usize = 0;
    while i < names.len()
        invariant
            i <= names.len(),
            views == string_views(names@),
            first_index_of(views, target@) == first_index_from(views, target@, i as nat),
        decreases names.len() - i,
    {
        if names[i] == *target {
            return Some(i);
        }
        i = i + 1;
    }
    None
}

/// The characters of `name` after its first one.
fn after_first_char(name: &String) -> (r: String)
    requires
        name@.len() > 0,
    ensures
        r@ == name@.drop_first(),
{
    let s = name.as_str();
    let len = s.unicode_len();
    let rest = s.substring_char(1, len);
    let r = String::from_str(rest);
    assert(r@ =~= name@.drop_first());
    r
}

/// The slot of a parameter written `?` or `?NNN`.
fn numbered_param_slot(name: &String, cursor: usize) -> (r: Result<(usize, usize), Error>)
    requires
        name@.len() > 0,
        cursor < usize::MAX,
    ensures
        slot_model(r) == numbered_slot(name@, cursor as nat),
{
    let digits = after_first_char(name);
    if digits.as_str().unicode_len() == 0 {
        Ok((cursor, cursor + 1))
    } else {
        match parse_usize(digits.as_str()) {
            Some(raw) => Ok((raw.saturating_sub(1), cursor)),
            None => Err(Error::MissingNamedParam { parameter: name.clone() }),
        }
    }
}

/// The first character of `name`, if it has one.
fn first_char(name: &String) -> (r: Option<char>)
    ensures
        match r {
            Some(c) => name@.len() > 0 && c == name@[0],
            None => name@.len() == 0,
        },
{
    let s = name.as_str();
    if s.unicode_len() == 0 {
        None
    } else {
        Some(s.get_char(0))
    }
}

/// The slot of the parameter numbered `index` named `name`, when the values
/// are struct fields named `fields` (or list items, without names), and the
/// cursor of bare parameters after it.
pub fn param_slot_of(
    fields: Option<&Vec<String>>,
    count: usize,
    name: &Option<String>,
    cursor: usize,
    index: usize,
) -> (r: Result<(usize, usize), Error>)
    requires
        cursor < usize::MAX,
    ensures
        slot_model(r) == param_slot(
            match fields {
                Some(f) => Some(string_views(f@)),
                None => None,
            },
            count as nat,
            match name {
                Some(n) => Some(n@),
                None => None,
            },
            cursor as nat,
            index as nat,
        ),
{
    match fields {
        Some(field_names) => match name {
            Some(n) => {
                match first_char(n) {
                    Some(c) => {
                        if c == ':' || c == '@' || c == '$' {
                            let stripped = after_first_char(n);
                            match find_name(field_names, &stripped) {
                                Some(i) => Ok((i, cursor)),
                                None => Err(Error::MissingNamedParam { parameter: n.clone() }),
                            }
                        } else if c == '?' {
                            numbered_param_slot(n, cursor)
                        } else {
                            Err(Error::UnnamedParameter { index })
                        }
                    },
                    None => Err(Error::UnnamedParameter { index }),
                }
            },
            None => {
                if cursor >= count {
                    Err(Error::UnnamedParameter { index })
                } else {
                    Ok((cursor, cursor + 1))
                }
            },
        },
        None => match name {
            Some(n) => {
                match first_char(n) {
                    Some(c) => {
                        if c == '?' {
                            numbered_param_slot(n, cursor)
                        } else {
                            Err(Error::MissingNamedParam { parameter: n.clone() })
                        }
                    },
                    None => Err(Error::MissingNamedParam { parameter: n.clone() }),
                }
            },
            None => Ok((cursor, cursor + 1)),
        },
    }
}


/// A successful plan of `k` parameters has one slot per parameter, each
/// naming one of the `count` values, and the cursor of bare parameters has
/// moved at most once per parameter.
pub proof fn lemma_plan_prefix_shape(
    fields: Option<Seq<Seq<char>>>,
    count: nat,
    names: Seq<Option<Seq<char>>>,
    k: nat,
)
    requires
        plan_prefix(fields, count, names, k) is Ok,
    ensures
        ({
            let (plan, cursor) = plan_prefix(fields, count, names, k)->Ok_0;
            &&& plan.len() == k
            &&& cursor <= k
            &&& forall|i: int| 0 <= i < k ==> #[trigger] plan[i] < count
        }),
    decreases k,
{
    if k > 0 {
        lemma_plan_prefix_shape(fields, count, names, (k - 1) as nat);
    }
}

/// Progress through the parameters of a statement: the slots chosen so far,
/// the cursor of bare parameters, and which values have been taken.
struct Planner {
    cursor: usize,
    plan: Vec<usize>,
    used: Vec<bool>,
}

impl Planner {
    /// The planner has gone through the parameters named `names`, without
    /// error, for `count` values named `fields` (or unnamed list items).
    spec fn tracks(
        self,
        fields: Option<Seq<Seq<char>>>,
        count: nat,
        names: Seq<Option<Seq<char>>>,
    ) -> bool {
        &&& plan_prefix(fields, count, names, names.len()) == Ok::<(Seq<nat>, nat), ErrorModel>(
            (index_views(self.plan@), self.cursor as nat),
        )
        &&& self.used@.len() == count
        &&& forall|j: int|
            0 <= j < count ==> self.used@[j] == index_views(self.plan@).contains(j as nat)
    }

    /// A planner that has seen no parameter yet.
    fn new(count: usize) -> (p: Planner)
        ensures
            p.tracks(None, count as nat, Seq::empty()),
            forall|f: Seq<Seq<char>>| p.tracks(Some(f), count as nat, Seq::empty()),
    {
        let mut used: Vec<bool> = Vec::new();
        let mut j: usize = 0;
        while j < count
            invariant
                j <= count,
                used@.len() == j,
                forall|i: int| 0 <= i < j ==> !used@[i],
            decreases count - j,
        {
            used.push(false);
            j = j + 1;
        }
        let p = Planner { cursor: 0, plan: Vec::new(), used };
        assert(index_views(p.plan@) =~= Seq::<nat>::empty());
        p
    }

    /// Takes the next parameter, numbered `index` and named `name`, and
    /// returns its slot.
    fn step(
        &mut self,
        fields: Option<&Vec<String>>,
        count: usize,
        name: &Option<String>,
        index: usize,
        Ghost(names): Ghost<Seq<Option<Seq<char>>>>,
    ) -> (r: Result<usize, Error>)
        requires
            old(self).tracks(
                match fields {
                    Some(f) => Some(string_views(f@)),
                    None => None,
                },
                count as nat,
                names,
            ),
            index == names.len() + 1,
        ensures
            ({
                let fv = match fields {
                    Some(f) => Some(string_views(f@)),
                    None => None,
                };
                let nv = match name {
                    Some(n) => Some(n@),
                    None => None,
                };
                let all = names.push(nv);
                match r {
                    Ok(slot) => {
                        &&& final(self).tracks(fv, count as nat, all)
                        &&& slot < count
                        &&& final(self).plan@ == old(self).plan@.push(slot)
                    },
                    Err(e) => plan_prefix(fv, count as nat, all, all.len()) == Err::<
                        (Seq<nat>, nat),
                        ErrorModel,
                    >(e.model()),
                }
            }),
    {
        let ghost fv = match fields {
            Some(f) => Some(string_views(f@)),
            None => None,
        };
        let ghost nv = match name {
            Some(n) => Some(n@),
            None => None,
        };
        let ghost all = names.push(nv);
        proof {
            lemma_plan_prefix_shape(fv, count as nat, names, names.len());
            assert(all.take(names.len() as int) =~= names);
            assert(all[names.len() as int] == nv);
            lemma_plan_prefix_take(fv, count as nat, all, names.len());
        }
        let (slot, next) = match param_slot_of(fields, count, name, self.cursor, index) {
            Ok(s) => s,
            Err(e) => {
                return Err(e);
            },
        };
        if slot >= count {
            return Err(Error::UnnamedParameter { index });
        }
        self.plan.push(slot);
        self.used.set(slot, true);
        self.cursor = next;
        proof {
            let pv = index_views(self.plan@);
            let ov = index_views(old(self).plan@);
            assert(pv =~= ov.push(slot as nat));
            assert forall|j: int| 0 <= j < count implies self.used@[j] == pv.contains(
                j as nat,
            ) by {
                if j == slot {
                    assert(pv[ov.len() as int] == slot as nat);
                } else {
                    if pv.contains(j as nat) {
                        let k = choose|k: int| 0 <= k < pv.len() && pv[k] == j as nat;
                        assert(k < ov.len());
                        assert(ov[k] == j as nat);
                    }
                    if ov.contains(j as nat) {
                        let k = choose|k: int| 0 <= k < ov.len() && ov[k] == j as nat;
                        assert(pv[k] == j as nat);
                    }
                }
            }
        }
        Ok(slot)
    }
}

/// The plan of the first `k` parameters depends on the names of those
/// parameters alone.
pub proof fn lemma_plan_prefix_take(
    fields: Option<Seq<Seq<char>>>,
    count: nat,
    names: Seq<Option<Seq<char>>>,
    k: nat,
)
    requires
        k <= names.len(),
    ensures
        plan_prefix(fields, count, names, k) == plan_prefix(
            fields,
            count,
            names.take(k as int),
            k,
        ),
    decreases k,
{
    if k > 0 {
        lemma_plan_prefix_take(fields, count, names, (k - 1) as nat);
        lemma_plan_prefix_take(fields, count, names.take(k as int), (k - 1) as nat);
        assert(names.take(k as int).take((k - 1) as int) =~= names.take((k - 1) as int));
    }
}

/// Once a parameter has no slot, the plans of all longer prefixes fail with
/// the same error.
pub proof fn lemma_plan_prefix_err_persists(
    fields: Option<Seq<Seq<char>>>,
    count: nat,
    names: Seq<Option<Seq<char>>>,
    k: nat,
    m: nat,
)
    requires
        k <= m,
        plan_prefix(fields, count, names, k) is Err,
    ensures
        plan_prefix(fields, count, names, m) == plan_prefix(fields, count, names, k),
    decreases m - k,
{
    if k < m {
        lemma_plan_prefix_err_persists(fields, count, names, k, (m - 1) as nat);
    }
}

/// The names of the fields that no parameter took, in field order.
fn unused_field_names(field_names: &Vec<String>, planner: &Planner) -> (r: Vec<String>)
    requires
        planner.used@.len() == field_names.len(),
        forall|j: int|
            0 <= j < field_names.len() ==> planner.used@[j] == index_views(planner.plan@).contains(
                j as nat,
            ),
    ensures
        string_views(r@) == unused_prefix(
            string_views(field_names@),
            index_views(planner.plan@),
            field_names.len() as nat,
        ),
{
    let ghost fv = string_views(field_names@);
    let ghost pv = index_views(planner.plan@);
    let mut unused: Vec<String> = Vec::new();
    let mut j: usize = 0;
    while j < field_names.len()
        invariant
            j <= field_names.len(),
            fv == string_views(field_names@),
            pv == index_views(planner.plan@),
            planner.used@.len() == field_names.len(),
            forall|i: int|
                0 <= i < field_names.len() ==> planner.used@[i] == pv.contains(i as nat),
            string_views(unused@) == unused_prefix(fv, pv, j as nat),
        decreases field_names.len() - j,
    {
        if !planner.used[j] {
            unused.push(field_names[j].clone());
        }
        proof {
            assert(planner.used@[j as int] == pv.contains(j as nat));
        }
        assert(string_views(unused@) =~= unused_prefix(fv, pv, (j + 1) as nat));
        j = j + 1;
    }
    unused
}

/// How many of the `count` values some parameter took.
fn used_value_count(planner: &Planner, count: usize) -> (r: usize)
    requires
        planner.used@.len() == count,
        forall|j: int|
            0 <= j < count ==> planner.used@[j] == index_views(planner.plan@).contains(j as nat),
    ensures
        r as nat == used_count_prefix(index_views(planner.plan@), count as nat),
{
    let ghost pv = index_views(planner.plan@);
    let mut used: usize = 0;
    let mut j: usize = 0;
    while j < count
        invariant
            j <= count,
            used <= j,
            pv == index_views(planner.plan@),
            planner.used@.len() == count,
            forall|i: int| 0 <= i < count ==> planner.used@[i] == pv.contains(i as nat),
            used as nat == used_count_prefix(pv, j as nat),
        decreases count - j,
    {
        proof {
            assert(planner.used@[j as int] == pv.contains(j as nat));
        }
        if planner.used[j] {
            used = used + 1;
        }
        j = j + 1;
    }
    used
}

/// The field that each parameter of a statement takes, when the
/// parameters have the names `param_names` (`None` for an unnamed one, in
/// parameter order) and the struct's fields are named `field_names`.
///
/// A named parameter (`:name`, `@name`, `$name`) takes the first field of
/// that name; an unnamed one takes the field after the last one that an
/// unnamed parameter took; `?NNN` takes field `NNN - 1`. Every field must be
/// taken by some parameter.
pub fn resolve_named_params(field_names: &Vec<String>, param_names: &Vec<Option<String>>) -> (r:
    Result<Vec<usize>, Error>)
    requires
        param_names.len() < usize::MAX,
    ensures
        plan_model(r) == named_binding(string_views(field_names@), name_views(param_names@)),
{
    let ghost fv = string_views(field_names@);
    let ghost nv = name_views(param_names@);
    let count = field_names.len();
    let mut planner = Planner::new(count);
    let mut i: usize = 0;
    while i < param_names.len()
        invariant
            i <= param_names.len() < usize::MAX,
            count == field_names.len(),
            fv == string_views(field_names@),
            nv == name_views(param_names@),
            planner.tracks(Some(fv), count as nat, nv.take(i as int)),
        decreases param_names.len() - i,
    {
        proof {
            assert(nv.take(i as int).push(nv[i as int]) =~= nv.take(i + 1));
        }
        match planner.step(Some(field_names), count, &param_names[i], i + 1, Ghost(nv.take(i as int))) {
            Ok(_) => {},
            Err(e) => {
                proof {
                    lemma_plan_prefix_take(Some(fv), count as nat, nv, (i + 1) as nat);
                    lemma_plan_prefix_err_persists(Some(fv), count as nat, nv, (i + 1) as nat, nv.len());
                }
                return Err(e);
            },
        }
        i = i + 1;
    }
    proof {
        assert(nv.take(nv.len() as int) =~= nv);
    }
    let unused = unused_field_names(field_names, &planner);
    if unused.len() > 0 {
        Err(Error::UnusedParamFields { fields: unused })
    } else {
        Ok(planner.plan)
    }
}

/// The list item that each parameter of a statement takes, when the
/// parameters have the names `param_names` (`None` for an unnamed one, in
/// parameter order) and the list has `value_count` items.
///
/// An unnamed parameter takes the item after the last one that an unnamed
/// parameter took; `?NNN` takes item `NNN - 1`; a named parameter is refused.
/// Every item must be taken by some parameter.
pub fn resolve_positional_params(value_count: usize, param_names: &Vec<Option<String>>) -> (r:
    Result<Vec<usize>, Error>)
    requires
        param_names.len() < usize::MAX,
    ensures
        plan_model(r) == list_binding(value_count as nat, name_views(param_names@)),
{
    let ghost nv = name_views(param_names@);
    let mut planner = Planner::new(value_count);
    let mut i: usize = 0;
    while i < param_names.len()
        invariant
            i <= param_names.len() < usize::MAX,
            nv == name_views(param_names@),
            planner.tracks(None, value_count as nat, nv.take(i as int)),
        decreases param_names.len() - i,
    {
        proof {
            assert(nv.take(i as int).push(nv[i as int]) =~= nv.take(i + 1));
        }
        match planner.step(None, value_count, &param_names[i], i + 1, Ghost(nv.take(i as int))) {
            Ok(_) => {},
            Err(e) => {
                proof {
                    lemma_plan_prefix_take(None, value_count as nat, nv, (i + 1) as nat);
                    lemma_plan_prefix_err_persists(None, value_count as nat, nv, (i + 1) as nat, nv.len());
                }
                return Err(e);
            },
        }
        i = i + 1;
    }
    proof {
        assert(nv.take(nv.len() as int) =~= nv);
    }
    let used = used_value_count(&planner, value_count);
    if used != value_count {
        Err(Error::UnusedPositionalParams { provided: value_count, used })
    } else {
        Ok(planner.plan)
    }
}

/// The bindings that a plan gives: parameter `k + 1` takes the value at
/// `plan[k]`.
pub open spec fn planned_bindings(plan: Seq<nat>, values: Seq<SqlValue>) -> Map<int, SqlValue> {
    Map::new(|k: int| 1 <= k <= plan.len(), |k: int| values[plan[k - 1] as int])
}

/// The slots of the longest prefix of the first `k` parameters that has a
/// plan: the parameters that were bound before planning stopped.
pub open spec fn longest_plan(
    fields: Option<Seq<Seq<char>>>,
    count: nat,
    names: Seq<Option<Seq<char>>>,
    k: nat,
) -> Seq<nat>
    decreases k,
{
    match plan_prefix(fields, count, names, k) {
        Ok((plan, _)) => plan,
        Err(_) => if k == 0 {
            Seq::empty()
        } else {
            longest_plan(fields, count, names, (k - 1) as nat)
        },
    }
}

/// SQLite refused to bind parameter `k`, and `bindings` is what the
/// statement was left with: parameter `k` has a slot, the parameters before
/// it hold their planned values, and no other parameter is bound (nothing is
/// known of parameter `k` itself).
pub open spec fn refused_at(
    fields: Option<Seq<Seq<char>>>,
    count: nat,
    names: Seq<Option<Seq<char>>>,
    values: Seq<SqlValue>,
    k: nat,
    bindings: Map<int, SqlValue>,
) -> bool {
    &&& 1 <= k <= names.len()
    &&& plan_prefix(fields, count, names, k) is Ok
    &&& bindings.remove(k as int) == planned_bindings(
        plan_prefix(fields, count, names, (k - 1) as nat)->Ok_0.0,
        values,
    )
}

/// `r` and `bindings` are the outcome of binding `values` to a statement
/// whose parameters are named `names`, as `binding` (the plan, or its error)
/// says, the parameters being planned one by one against `count` values
/// named `fields` (or unnamed list items), each bound as soon as it is
/// planned, after the earlier bindings were cleared.
///
/// On success each parameter holds its planned value and no other is bound.
/// An error of the library's own is exactly the plan's error, and the
/// parameters planned before it hold their values. An error of SQLite comes
/// only from refusing to bind a parameter that has a slot, after the
/// parameters before it were bound.
pub open spec fn bind_outcome(
    fields: Option<Seq<Seq<char>>>,
    count: nat,
    names: Seq<Option<Seq<char>>>,
    binding: Result<Seq<nat>, ErrorModel>,
    values: Seq<SqlValue>,
    r: Result<(), Error>,
    bindings: Map<int, SqlValue>,
) -> bool {
    match r {
        Ok(_) => binding matches Ok(plan) && bindings == planned_bindings(plan, values),
        Err(e) => if e is Sql {
            exists|k: nat| #[trigger] refused_at(fields, count, names, values, k, bindings)
        } else {
            &&& binding == Err::<Seq<nat>, ErrorModel>(e.model())
            &&& bindings == planned_bindings(
                longest_plan(fields, count, names, names.len()),
                values,
            )
        },
    }
}

/// When planning stops after the first `k` parameters (or goes through all
/// `m`), the longest plan among the first `m` is that of the first `k`.
proof fn lemma_longest_plan(
    fields: Option<Seq<Seq<char>>>,
    count: nat,
    names: Seq<Option<Seq<char>>>,
    k: nat,
    m: nat,
)
    requires
        k <= m,
        plan_prefix(fields, count, names, k) is Ok,
        k < m ==> plan_prefix(fields, count, names, k + 1) is Err,
    ensures
        longest_plan(fields, count, names, m) == plan_prefix(fields, count, names, k)->Ok_0.0,
    decreases m - k,
{
    if k < m {
        lemma_plan_prefix_err_persists(fields, count, names, k + 1, m);
        lemma_longest_plan(fields, count, names, k, (m - 1) as nat);
    }
}

/// Binding one more slot extends the planned bindings by one parameter.
proof fn lemma_planned_bindings_push(plan: Seq<nat>, values: Seq<SqlValue>, slot: nat)
    ensures
        planned_bindings(plan.push(slot), values) == planned_bindings(plan, values).insert(
            plan.len() + 1int,
            values[slot as int],
        ),
{
    assert(planned_bindings(plan.push(slot), values) =~= planned_bindings(plan, values).insert(
        plan.len() + 1int,
        values[slot as int],
    ));
}

/// Every error that planning gives is a missing named parameter or an
/// unnamed parameter: never one of SQLite's.
pub proof fn lemma_plan_prefix_err_kind(
    fields: Option<Seq<Seq<char>>>,
    count: nat,
    names: Seq<Option<Seq<char>>>,
    k: nat,
)
    ensures
        plan_prefix(fields, count, names, k) matches Err(m) ==> (m is MissingNamedParam
            || m is UnnamedParameter),
    decreases k,
{
    if k > 0 {
        lemma_plan_prefix_err_kind(fields, count, names, (k - 1) as nat);
    }
}

/// When the first parameter has no plan, nothing is bound: the outcome is
/// exactly the plan's error, never one of SQLite's, and the statement is
/// left with no parameter bound.
pub proof fn lemma_plan_error_before_any_bind(
    fields: Option<Seq<Seq<char>>>,
    count: nat,
    names: Seq<Option<Seq<char>>>,
    binding: Result<Seq<nat>, ErrorModel>,
    values: Seq<SqlValue>,
    r: Result<(), Error>,
    bindings: Map<int, SqlValue>,
)
    requires
        names.len() >= 1,
        plan_prefix(fields, count, names, 1) is Err,
        binding is Err,
        bind_outcome(fields, count, names, binding, values, r, bindings),
    ensures
        r matches Err(e) && !(e is Sql) && binding == Err::<Seq<nat>, ErrorModel>(e.model()),
        bindings == Map::<int, SqlValue>::empty(),
{
    if r matches Err(e) && e is Sql {
        let k = choose|k: nat| #[trigger] refused_at(fields, count, names, values, k, bindings);
        lemma_plan_prefix_err_persists(fields, count, names, 1, k);
    }
    lemma_longest_plan(fields, count, names, 0, names.len());
    assert(planned_bindings(Seq::empty(), values) =~= Map::<int, SqlValue>::empty());
}

/// Binds the parameters of `stmt` from the fields of a struct, named
/// `field_names`, whose values are `field_values`, as the statement's
/// parameter names and [`named_binding`] assign them ([`bind_outcome`]).
/// Bindings made before are cleared first.
pub fn bind_facet_params_impl(
    stmt: &mut Statement<'_>,
    field_names: &Vec<String>,
    field_values: &Vec<SqlValue>,
) -> (r: Result<(), Error>)
    requires
        field_names.len() == field_values.len(),
    ensures
        statement_param_names(*final(stmt)) == statement_param_names(*old(stmt)),
        bind_outcome(
            Some(string_views(field_names@)),
            field_names.len() as nat,
            statement_param_names(*old(stmt)),
            named_binding(string_views(field_names@), statement_param_names(*old(stmt))),
            field_values@,
            r,
            statement_bindings(*final(stmt)),
        ),
{
    let ghost fv = string_views(field_names@);
    let ghost names = statement_param_names(*stmt);
    clear_bindings(stmt);
    let count = parameter_count(stmt);
    let n = field_names.len();
    let mut planner = Planner::new(n);
    proof {
        assert(index_views(planner.plan@) =~= Seq::<nat>::empty());
        assert(planned_bindings(Seq::empty(), field_values@) =~= no_bindings());
        assert(names.take(0) =~= Seq::<Option<Seq<char>>>::empty());
    }
    let mut i: usize = 0;
    while i < count
        invariant
            i <= count,
            count == names.len(),
            count <= i32::MAX,
            names == statement_param_names(*stmt),
            names == statement_param_names(*old(stmt)),
            n == field_names.len(),
            field_names.len() == field_values.len(),
            fv == string_views(field_names@),
            planner.tracks(Some(fv), n as nat, names.take(i as int)),
            statement_bindings(*stmt) == planned_bindings(index_views(planner.plan@), field_values@),
        decreases count - i,
    {
        let name = parameter_name(stmt, i + 1);
        proof {
            assert(names.take(i as int).push(names[i as int]) =~= names.take(i + 1));
        }
        let ghost old_plan = index_views(planner.plan@);
        proof {
            lemma_plan_prefix_shape(Some(fv), n as nat, names.take(i as int), i as nat);
            lemma_plan_prefix_take(Some(fv), n as nat, names, i as nat);
        }
        let slot = match planner.step(Some(field_names), n, &name, i + 1, Ghost(names.take(i as int))) {
            Ok(s) => s,
            Err(e) => {
                proof {
                    lemma_plan_prefix_take(Some(fv), n as nat, names, (i + 1) as nat);
                    lemma_plan_prefix_err_persists(Some(fv), n as nat, names, (i + 1) as nat, names.len());
                    lemma_plan_prefix_err_kind(Some(fv), n as nat, names, (i + 1) as nat);
                    lemma_longest_plan(Some(fv), n as nat, names, i as nat, names.len());
                }
                return Err(e);
            },
        };
        proof {
            lemma_plan_prefix_take(Some(fv), n as nat, names, (i + 1) as nat);
        }
        match bind_value(stmt, i + 1, &field_values[slot]) {
            Ok(()) => {},
            Err(e) => {
                proof {
                    assert(statement_bindings(*stmt).remove(i + 1) =~= planned_bindings(
                        old_plan,
                        field_values@,
                    ));
                    assert(refused_at(
                        Some(fv),
                        n as nat,
                        names,
                        field_values@,
                        (i + 1) as nat,
                        statement_bindings(*stmt),
                    ));
                }
                return Err(Error::Sql(e));
            },
        }
        proof {
            lemma_planned_bindings_push(old_plan, field_values@, slot as nat);
            assert(index_views(planner.plan@) =~= old_plan.push(slot as nat));
        }
        i = i + 1;
    }
    proof {
        assert(names.take(names.len() as int) =~= names);
        lemma_longest_plan(Some(fv), n as nat, names, names.len(), names.len());
    }
    let unused = unused_field_names(field_names, &planner);
    if unused.len() > 0 {
        Err(Error::UnusedParamFields { fields: unused })
    } else {
        Ok(())
    }
}

/// Binds the parameters of `stmt` from the items `values` of a list, as the
/// statement's parameter names and [`list_binding`] assign them
/// ([`bind_outcome`]). Bindings made before are cleared first.
pub fn bind_list_like_params(stmt: &mut Statement<'_>, values: &Vec<SqlValue>) -> (r: Result<
    (),
    Error,
>)
    ensures
        statement_param_names(*final(stmt)) == statement_param_names(*old(stmt)),
        bind_outcome(
            None,
            values.len() as nat,
            statement_param_names(*old(stmt)),
            list_binding(values.len() as nat, statement_param_names(*old(stmt))),
            values@,
            r,
            statement_bindings(*final(stmt)),
        ),
{
    let ghost names = statement_param_names(*stmt);
    clear_bindings(stmt);
    let count = parameter_count(stmt);
    let n = values.len();
    let mut planner = Planner::new(n);
    proof {
        assert(index_views(planner.plan@) =~= Seq::<nat>::empty());
        assert(planned_bindings(Seq::empty(), values@) =~= no_bindings());
        assert(names.take(0) =~= Seq::<Option<Seq<char>>>::empty());
    }
    let mut i: usize = 0;
    while i < count
        invariant
            i <= count,
            count == names.len(),
            count <= i32::MAX,
            names == statement_param_names(*stmt),
            names == statement_param_names(*old(stmt)),
            n == values.len(),
            planner.tracks(None, n as nat, names.take(i as int)),
            statement_bindings(*stmt) == planned_bindings(index_views(planner.plan@), values@),
        decreases count - i,
    {
        let name = parameter_name(stmt, i + 1);
        proof {
            assert(names.take(i as int).push(names[i as int]) =~= names.take(i + 1));
        }
        let ghost old_plan = index_views(planner.plan@);
        proof {
            lemma_plan_prefix_shape(None, n as nat, names.take(i as int), i as nat);
            lemma_plan_prefix_take(None, n as nat, names, i as nat);
        }
        let slot = match planner.step(None, n, &name, i + 1, Ghost(names.take(i as int))) {
            Ok(s) => s,
            Err(e) => {
                proof {
                    lemma_plan_prefix_take(None, n as nat, names, (i + 1) as nat);
                    lemma_plan_prefix_err_persists(None, n as nat, names, (i + 1) as nat, names.len());
                    lemma_plan_prefix_err_kind(None, n as nat, names, (i + 1) as nat);
                    lemma_longest_plan(None, n as nat, names, i as nat, names.len());
                }
                return Err(e);
            },
        };
        proof {
            lemma_plan_prefix_take(None, n as nat, names, (i + 1) as nat);
        }
        match bind_value(stmt, i + 1, &values[slot]) {
            Ok(()) => {},
            Err(e) => {
                proof {
                    assert(statement_bindings(*stmt).remove(i + 1) =~= planned_bindings(
                        old_plan,
                        values@,
                    ));
                    assert(refused_at(
                        None,
                        n as nat,
                        names,
                        values@,
                        (i + 1) as nat,
                        statement_bindings(*stmt),
                    ));
                }
                return Err(Error::Sql(e));
            },
        }
        proof {
            lemma_planned_bindings_push(old_plan, values@, slot as nat);
            assert(index_views(planner.plan@) =~= old_plan.push(slot as nat));
        }
        i = i + 1;
    }
    proof {
        assert(names.take(names.len() as int) =~= names);
        lemma_longest_plan(None, n as nat, names, names.len(), names.len());
    }
    let used = used_value_count(&planner, n);
    if used != n {
        Err(Error::UnusedPositionalParams { provided: n, used })
    } else {
        Ok(())
    }
}

/// The names of the first `j` fields that no parameter took are none only
/// when each of those fields was taken.
proof fn lemma_unused_prefix_empty(fields: Seq<Seq<char>>, plan: Seq<nat>, j: nat)
    requires
        unused_prefix(fields, plan, j).len() == 0,
    ensures
        forall|i: nat| i < j ==> plan.contains(i),
    decreases j,
{
    if j > 0 {
        if !plan.contains((j - 1) as nat) {
            assert(unused_prefix(fields, plan, j).len() == unused_prefix(
                fields,
                plan,
                (j - 1) as nat,
            ).len() + 1);
        }
        lemma_unused_prefix_empty(fields, plan, (j - 1) as nat);
    }
}

/// At most `j` of the first `j` values are taken, and fewer when one of them
/// is not.
proof fn lemma_used_count_prefix(plan: Seq<nat>, j: nat)
    ensures
        used_count_prefix(plan, j) <= j,
        (forall|i: nat| i < j ==> plan.contains(i)) <== used_count_prefix(plan, j) == j,
    decreases j,
{
    if j > 0 {
        lemma_used_count_prefix(plan, (j - 1) as nat);
    }
}

/// Binding from struct fields: a successful binding gives each parameter
/// one field, and every field is bound to some parameter.
pub proof fn lemma_named_binding_takes_every_field(
    fields: Seq<Seq<char>>,
    names: Seq<Option<Seq<char>>>,
)
    requires
        named_binding(fields, names) is Ok,
    ensures
        ({
            let plan = named_binding(fields, names)->Ok_0;
            &&& plan.len() == names.len()
            &&& forall|k: int| 0 <= k < plan.len() ==> #[trigger] plan[k] < fields.len()
            &&& forall|j: nat| j < fields.len() ==> #[trigger] plan.contains(j)
        }),
{
    lemma_plan_prefix_shape(Some(fields), fields.len(), names, names.len());
    let plan = plan_prefix(Some(fields), fields.len(), names, names.len())->Ok_0.0;
    lemma_unused_prefix_empty(fields, plan, fields.len());
}

/// Binding from a list: a successful binding gives each parameter one item,
/// and every item is bound to some parameter.
pub proof fn lemma_list_binding_takes_every_value(count: nat, names: Seq<Option<Seq<char>>>)
    requires
        list_binding(count, names) is Ok,
    ensures
        ({
            let plan = list_binding(count, names)->Ok_0;
            &&& plan.len() == names.len()
            &&& forall|k: int| 0 <= k < plan.len() ==> #[trigger] plan[k] < count
            &&& forall|j: nat| j < count ==> #[trigger] plan.contains(j)
        }),
{
    lemma_plan_prefix_shape(None, count, names, names.len());
    let plan = plan_prefix(None, count, names, names.len())->Ok_0.0;
    lemma_used_count_prefix(plan, count);
}

/// The first index that `first_index_from` finds holds the target, and no
/// index before it from `from` on does.
proof fn lemma_first_index_from(names: Seq<Seq<char>>, target: Seq<char>, from: nat)
    ensures
        first_index_from(names, target, from) matches Some(i) ==> from <= i < names.len()
            && names[i as int] == target && forall|j: int|
            from <= j < i ==> names[j] != target,
    decreases names.len() - from,
{
    if from < names.len() && names[from as int] != target {
        lemma_first_index_from(names, target, from + 1);
    }
}

/// The slots of a successful plan of `k` parameters: a named parameter
/// (`:name`, `@name`, `$name`) takes the first field of that name.
proof fn lemma_plan_prefix_named(
    fields: Seq<Seq<char>>,
    names: Seq<Option<Seq<char>>>,
    k: nat,
    p: int,
)
    requires
        plan_prefix(Some(fields), fields.len(), names, k) is Ok,
        0 <= p < k,
        names[p] matches Some(n) && n.len() > 0 && is_name_sigil(n[0]),
    ensures
        ({
            let plan = plan_prefix(Some(fields), fields.len(), names, k)->Ok_0.0;
            let n = names[p]->Some_0;
            &&& fields[plan[p] as int] == n.drop_first()
            &&& forall|j: int| 0 <= j < plan[p] ==> fields[j] != n.drop_first()
        }),
    decreases k,
{
    lemma_plan_prefix_shape(Some(fields), fields.len(), names, (k - 1) as nat);
    if p < k - 1 {
        lemma_plan_prefix_named(fields, names, (k - 1) as nat, p);
    } else {
        let n = names[p]->Some_0;
        lemma_first_index_from(fields, n.drop_first(), 0);
    }
}

/// Binding from struct fields: each named parameter (`:name`, `@name`,
/// `$name`) is bound to the first field called `name`.
pub proof fn lemma_named_param_takes_its_field(
    fields: Seq<Seq<char>>,
    names: Seq<Option<Seq<char>>>,
    p: int,
)
    requires
        named_binding(fields, names) is Ok,
        0 <= p < names.len(),
        names[p] matches Some(n) && n.len() > 0 && is_name_sigil(n[0]),
    ensures
        ({
            let plan = named_binding(fields, names)->Ok_0;
            let n = names[p]->Some_0;
            &&& fields[plan[p] as int] == n.drop_first()
            &&& forall|j: int| 0 <= j < plan[p] ==> fields[j] != n.drop_first()
        }),
{
    lemma_plan_prefix_named(fields, names, names.len(), p);
}

/// The slots of a successful plan of `k` parameters: a numbered parameter
/// `?NNN` takes value `NNN - 1`.
proof fn lemma_plan_prefix_numbered(
    fields: Option<Seq<Seq<char>>>,
    count: nat,
    names: Seq<Option<Seq<char>>>,
    k: nat,
    p: int,
    raw: nat,
)
    requires
        plan_prefix(fields, count, names, k) is Ok,
        0 <= p < k,
        names[p] matches Some(n) && n.len() > 1 && n[0] == '?' && parsed_usize(n.drop_first())
            == Some(raw),
        raw >= 1,
    ensures
        plan_prefix(fields, count, names, k)->Ok_0.0[p] == raw - 1,
    decreases k,
{
    lemma_plan_prefix_shape(fields, count, names, (k - 1) as nat);
    if p < k - 1 {
        lemma_plan_prefix_numbered(fields, count, names, (k - 1) as nat, p, raw);
    }
}

/// A parameter written `?N`, for `N` from 1 on, is bound to value `N - 1`,
/// whether the values are struct fields or list items.
pub proof fn lemma_numbered_param_takes_its_position(
    fields: Seq<Seq<char>>,
    count: nat,
    names: Seq<Option<Seq<char>>>,
    p: int,
    n: nat,
)
    requires
        0 <= p < names.len(),
        names[p] == Some(seq!['?'] + decimal(n)),
        1 <= n <= usize::MAX,
    ensures
        named_binding(fields, names) matches Ok(plan) ==> plan[p] == n - 1,
        list_binding(count, names) matches Ok(plan) ==> plan[p] == n - 1,
{
    let name = seq!['?'] + decimal(n);
    lemma_parse_decimal_roundtrip(n);
    assert(name.drop_first() =~= decimal(n));
    if named_binding(fields, names) is Ok {
        lemma_plan_prefix_numbered(Some(fields), fields.len(), names, names.len(), p, n);
    }
    if list_binding(count, names) is Ok {
        lemma_plan_prefix_numbered(None, count, names, names.len(), p, n);
    }
}

/// Only unnamed parameters: the first `k` take the first `k` values, in
/// order.
proof fn lemma_plan_prefix_unnamed(
    fields: Option<Seq<Seq<char>>>,
    count: nat,
    names: Seq<Option<Seq<char>>>,
    k: nat,
)
    requires
        k <= names.len(),
        k <= count,
        fields matches Some(f) ==> f.len() == count,
        forall|i: int| 0 <= i < names.len() ==> names[i] is None,
    ensures
        plan_prefix(fields, count, names, k) == Ok::<(Seq<nat>, nat), ErrorModel>(
            (Seq::new(k, |i: int| i as nat), k),
        ),
    decreases k,
{
    if k > 0 {
        lemma_plan_prefix_unnamed(fields, count, names, (k - 1) as nat);
        assert(Seq::new((k - 1) as nat, |i: int| i as nat).push((k - 1) as nat) =~= Seq::new(
            k,
            |i: int| i as nat,
        ));
    } else {
        assert(Seq::new(0, |i: int| i as nat) =~= Seq::<nat>::empty());
    }
}

/// When the plan holds each of the first `j` values, all `j` are counted
/// as taken.
proof fn lemma_used_count_all(plan: Seq<nat>, j: nat)
    requires
        forall|i: nat| i < j ==> plan.contains(i),
    ensures
        used_count_prefix(plan, j) == j,
    decreases j,
{
    if j > 0 {
        lemma_used_count_all(plan, (j - 1) as nat);
    }
}

/// When the plan holds each of the first `j` fields, none is unused.
proof fn lemma_unused_none(fields: Seq<Seq<char>>, plan: Seq<nat>, j: nat)
    requires
        forall|i: nat| i < j ==> plan.contains(i),
    ensures
        unused_prefix(fields, plan, j).len() == 0,
    decreases j,
{
    if j > 0 {
        lemma_unused_none(fields, plan, (j - 1) as nat);
    }
}

/// A statement whose parameters are all unnamed (`?`), as many as there
/// are values, takes the values in order: parameter `i + 1` takes value
/// `i`, whether the values are struct fields or list items.
pub proof fn lemma_unnamed_params_take_values_in_order(
    fields: Seq<Seq<char>>,
    names: Seq<Option<Seq<char>>>,
)
    requires
        forall|i: int| 0 <= i < names.len() ==> names[i] is None,
        names.len() == fields.len(),
    ensures
        named_binding(fields, names) == Ok::<Seq<nat>, ErrorModel>(
            Seq::new(names.len(), |i: int| i as nat),
        ),
        list_binding(names.len(), names) == Ok::<Seq<nat>, ErrorModel>(
            Seq::new(names.len(), |i: int| i as nat),
        ),
{
    let n = names.len();
    let plan = Seq::new(n, |i: int| i as nat);
    lemma_plan_prefix_unnamed(Some(fields), n, names, n);
    lemma_plan_prefix_unnamed(None, n, names, n);
    assert forall|i: nat| i < n implies plan.contains(i) by {
        assert(plan[i as int] == i);
    }
    lemma_used_count_all(plan, n);
    lemma_unused_none(fields, plan, n);
}


/// `n` is a named parameter (`:name`, `@name`, `$name`) whose name is that
/// of one of `fields`.
pub open spec fn names_some_field(fields: Seq<Seq<char>>, n: Option<Seq<char>>) -> bool {
    n matches Some(s) && s.len() > 0 && (s[0] == ':' || s[0] == '@' || s[0] == '$')
        && fields.contains(s.drop_first())
}

/// `n` is a named parameter (`:name`, `@name`, `$name`) called `f`.
pub open spec fn is_named(n: Option<Seq<char>>, f: Seq<char>) -> bool {
    n matches Some(s) && s.len() > 0 && (s[0] == ':' || s[0] == '@' || s[0] == '$')
        && s.drop_first() == f
}

/// Some parameter among `names` is a named parameter called `f`.
pub open spec fn field_is_named(names: Seq<Option<Seq<char>>>, f: Seq<char>) -> bool {
    exists|p: int| 0 <= p < names.len() && is_named(#[trigger] names[p], f)
}

/// When `target` occurs at or after `from`, it is found there or before.
proof fn lemma_first_index_exists(names: Seq<Seq<char>>, target: Seq<char>, from: nat, w: int)
    requires
        from <= w < names.len(),
        names[w] == target,
    ensures
        first_index_from(names, target, from) is Some,
    decreases names.len() - from,
{
    if names[from as int] != target {
        lemma_first_index_exists(names, target, from + 1, w);
    }
}

/// Named parameters that all name a field: the first `k` are planned, each
/// taking the first field of its name, and the cursor of bare parameters
/// stays at 0.
proof fn lemma_plan_prefix_resolved(fields: Seq<Seq<char>>, names: Seq<Option<Seq<char>>>, k: nat)
    requires
        k <= names.len(),
        forall|p: int| 0 <= p < k ==> names_some_field(fields, #[trigger] names[p]),
    ensures
        plan_prefix(Some(fields), fields.len(), names, k) is Ok,
        ({
            let (plan, cursor) = plan_prefix(Some(fields), fields.len(), names, k)->Ok_0;
            &&& cursor == 0
            &&& plan.len() == k
            &&& forall|p: int|
                0 <= p < k ==> #[trigger] plan[p] < fields.len() && fields[plan[p] as int]
                    == names[p]->Some_0.drop_first() && forall|j: int|
                    0 <= j < plan[p] ==> fields[j] != names[p]->Some_0.drop_first()
        }),
    decreases k,
{
    if k > 0 {
        lemma_plan_prefix_resolved(fields, names, (k - 1) as nat);
        let n = names[k - 1]->Some_0;
        assert(names_some_field(fields, names[k - 1]));
        let w = choose|w: int| 0 <= w < fields.len() && fields[w] == n.drop_first();
        lemma_first_index_exists(fields, n.drop_first(), 0, w);
        lemma_first_index_from(fields, n.drop_first(), 0);
        let (plan, cursor) = plan_prefix(Some(fields), fields.len(), names, (k - 1) as nat)->Ok_0;
        let i = first_index_of(fields, n.drop_first())->Some_0;
        assert(plan_prefix(Some(fields), fields.len(), names, k) == Ok::<(Seq<nat>, nat), ErrorModel>(
            (plan.push(i), 0),
        ));
        assert forall|p: int| 0 <= p < k implies #[trigger] plan.push(i)[p] < fields.len()
            && fields[plan.push(i)[p] as int] == names[p]->Some_0.drop_first() && forall|j: int|
            0 <= j < plan.push(i)[p] ==> fields[j] != names[p]->Some_0.drop_first() by {
            if p < k - 1 {
                assert(plan.push(i)[p] == plan[p]);
            }
        }
    }
}

/// Binding from struct fields when every parameter is a named parameter
/// (`:name`, `@name`, `$name`) that names a field: no parameter is refused.
/// Each parameter takes the first field of its name, and the binding
/// succeeds unless some field is left over, in which case the error lists
/// the fields left over. When the fields have distinct names and each is
/// named by some parameter, the binding succeeds.
pub proof fn lemma_named_params_bind_their_fields(
    fields: Seq<Seq<char>>,
    names: Seq<Option<Seq<char>>>,
)
    requires
        forall|p: int| 0 <= p < names.len() ==> names_some_field(fields, #[trigger] names[p]),
    ensures
        match named_binding(fields, names) {
            Ok(plan) => plan.len() == names.len() && forall|p: int|
                0 <= p < names.len() ==> #[trigger] plan[p] < fields.len() && fields[plan[p] as int]
                    == names[p]->Some_0.drop_first() && forall|j: int|
                    0 <= j < plan[p] ==> fields[j] != names[p]->Some_0.drop_first(),
            Err(m) => m matches ErrorModel::UnusedParamFields { fields: u } && u.len() > 0,
        },
        (forall|i: int, j: int| 0 <= i < j < fields.len() ==> fields[i] != fields[j]) && (forall|
            j: int,
        |
            0 <= j < fields.len() ==> field_is_named(names, #[trigger] fields[j]))
            ==> named_binding(fields, names) is Ok,
{
    lemma_plan_prefix_resolved(fields, names, names.len());
    let plan = plan_prefix(Some(fields), fields.len(), names, names.len())->Ok_0.0;
    if (forall|i: int, j: int| 0 <= i < j < fields.len() ==> fields[i] != fields[j]) && (forall|
        j: int,
    |
        0 <= j < fields.len() ==> field_is_named(names, #[trigger] fields[j])) {
        assert forall|j: nat| j < fields.len() implies plan.contains(j) by {
            assert(field_is_named(names, fields[j as int]));
            let p = choose|p: int| 0 <= p < names.len() && is_named(#[trigger] names[p], fields[j as int]);
            assert(fields[plan[p] as int] == fields[j as int]);
            assert(plan[p] == j);
        }
        lemma_unused_none(fields, plan, fields.len());
    }
}

/// Parameters that are all numbered (`?N`, with `N` from 1 to `count`,
/// given by `nums`): the first `k` are planned, parameter `p` taking value
/// `nums[p] - 1`, and the cursor of bare parameters stays at 0.
proof fn lemma_plan_prefix_all_numbered(
    fields: Option<Seq<Seq<char>>>,
    count: nat,
    names: Seq<Option<Seq<char>>>,
    nums: Seq<nat>,
    k: nat,
)
    requires
        k <= names.len(),
        k <= nums.len(),
        count <= usize::MAX,
        forall|p: int|
            0 <= p < k ==> 1 <= #[trigger] nums[p] <= count && names[p] == Some(
                seq!['?'] + decimal(nums[p]),
            ),
    ensures
        plan_prefix(fields, count, names, k) == Ok::<(Seq<nat>, nat), ErrorModel>(
            (Seq::new(k, |p: int| (nums[p] - 1) as nat), 0),
        ),
    decreases k,
{
    if k > 0 {
        lemma_plan_prefix_all_numbered(fields, count, names, nums, (k - 1) as nat);
        let num = nums[k - 1];
        let n = seq!['?'] + decimal(num);
        lemma_parse_decimal_roundtrip(num);
        assert(n.drop_first() =~= decimal(num));
        assert(n[0] == '?');
        assert(!is_name_sigil(n[0]));
        assert(numbered_slot(n, 0) == Ok::<(nat, nat), ErrorModel>(((num - 1) as nat, 0)));
        assert(Seq::new((k - 1) as nat, |p: int| (nums[p] - 1) as nat).push((num - 1) as nat)
            =~= Seq::new(k, |p: int| (nums[p] - 1) as nat));
    } else {
        assert(Seq::new(0, |p: int| (nums[p] - 1) as nat) =~= Seq::<nat>::empty());
    }
}

/// Parameters that are all numbered (`?N`, with `N` from 1 to `count`,
/// given by `nums`): parameter `p` takes value `nums[p] - 1`, for list items
/// and for struct fields alike. The binding succeeds unless some value is
/// left over, in which case the error says how many were provided and how
/// many used; when every value is named by some parameter it succeeds.
pub proof fn lemma_numbered_params_bind_by_position(
    fields: Seq<Seq<char>>,
    count: nat,
    names: Seq<Option<Seq<char>>>,
    nums: Seq<nat>,
)
    requires
        names.len() == nums.len(),
        count <= usize::MAX,
        forall|p: int|
            0 <= p < names.len() ==> 1 <= #[trigger] nums[p] <= count && names[p] == Some(
                seq!['?'] + decimal(nums[p]),
            ),
    ensures
        match list_binding(count, names) {
            Ok(plan) => plan == Seq::new(names.len(), |p: int| (nums[p] - 1) as nat),
            Err(m) => m matches ErrorModel::UnusedPositionalParams { provided, used } && provided
                == count && used < count,
        },
        fields.len() == count ==> match named_binding(fields, names) {
            Ok(plan) => plan == Seq::new(names.len(), |p: int| (nums[p] - 1) as nat),
            Err(m) => m is UnusedParamFields,
        },
        (forall|j: nat| j < count ==> #[trigger] nums.contains(j + 1)) ==> {
            &&& list_binding(count, names) == Ok::<Seq<nat>, ErrorModel>(
                Seq::new(names.len(), |p: int| (nums[p] - 1) as nat),
            )
            &&& fields.len() == count ==> named_binding(fields, names) == Ok::<
                Seq<nat>,
                ErrorModel,
            >(Seq::new(names.len(), |p: int| (nums[p] - 1) as nat))
        },
{
    let plan = Seq::new(names.len(), |p: int| (nums[p] - 1) as nat);
    lemma_plan_prefix_all_numbered(None, count, names, nums, names.len());
    lemma_plan_prefix_all_numbered(Some(fields), count, names, nums, names.len());
    lemma_used_count_prefix(plan, count);
    if forall|j: nat| j < count ==> #[trigger] nums.contains(j + 1) {
        assert forall|j: nat| j < count implies plan.contains(j) by {
            assert(nums.contains(j + 1));
            let p = choose|p: int| 0 <= p < nums.len() && nums[p] == j + 1;
            assert(plan[p] == j);
        }
        lemma_used_count_all(plan, count);
        lemma_unused_none(fields, plan, count);
    }
}

/// Lists of `n` items bound to `?1`, `?2`, ..., `?n` in order: parameter
/// `?k` takes item `k - 1`.
pub proof fn lemma_list_binds_numbered_params_in_order(n: nat, names: Seq<Option<Seq<char>>>)
    requires
        n <= usize::MAX,
        names.len() == n,
        forall|p: int| 0 <= p < n ==> #[trigger] names[p] == Some(seq!['?'] + decimal((p + 1) as nat)),
    ensures
        list_binding(n, names) == Ok::<Seq<nat>, ErrorModel>(Seq::new(n, |p: int| p as nat)),
{
    let nums = Seq::new(n, |p: int| (p + 1) as nat);
    assert forall|p: int|
        0 <= p < names.len() implies 1 <= #[trigger] nums[p] <= n && names[p] == Some(
        seq!['?'] + decimal(nums[p]),
    ) by {
        assert(names[p] == Some(seq!['?'] + decimal((p + 1) as nat)));
    }
    assert forall|j: nat| j < n implies #[trigger] nums.contains(j + 1) by {
        assert(nums[j as int] == j + 1);
    }
    lemma_numbered_params_bind_by_position(Seq::empty(), n, names, nums);
    assert(Seq::new(n, |p: int| (nums[p] - 1) as nat) =~= Seq::new(n, |p: int| p as nat));
}

/// Binding from struct fields: the first named parameter that names no
/// field, after parameters that all name fields, is refused as a missing
/// named parameter, by its name with its sigil.
pub proof fn lemma_named_param_without_field_is_missing(
    fields: Seq<Seq<char>>,
    names: Seq<Option<Seq<char>>>,
    k: int,
)
    requires
        0 <= k < names.len(),
        forall|p: int| 0 <= p < k ==> names_some_field(fields, #[trigger] names[p]),
        names[k] matches Some(s) && s.len() > 0 && (s[0] == ':' || s[0] == '@' || s[0] == '$'),
        !fields.contains(names[k]->Some_0.drop_first()),
    ensures
        named_binding(fields, names) == Err::<Seq<nat>, ErrorModel>(
            ErrorModel::MissingNamedParam { parameter: names[k]->Some_0 },
        ),
{
    lemma_plan_prefix_resolved(fields, names, k as nat);
    let n = names[k]->Some_0;
    lemma_first_index_from(fields, n.drop_first(), 0);
    assert(first_index_of(fields, n.drop_first()) is None);
    lemma_plan_prefix_err_persists(Some(fields), fields.len(), names, (k + 1) as nat, names.len());
}

/// Binding from a list: the first parameter that is not written with `?`,
/// after parameters `?N` that all lie within the list, is refused as a
/// missing named parameter: a list has no names.
pub proof fn lemma_list_refuses_named_params(
    count: nat,
    names: Seq<Option<Seq<char>>>,
    nums: Seq<nat>,
    k: int,
)
    requires
        0 <= k < names.len(),
        k <= nums.len(),
        count <= usize::MAX,
        forall|p: int|
            0 <= p < k ==> 1 <= #[trigger] nums[p] <= count && names[p] == Some(
                seq!['?'] + decimal(nums[p]),
            ),
        names[k] matches Some(s) && (s.len() == 0 || s[0] != '?'),
    ensures
        list_binding(count, names) == Err::<Seq<nat>, ErrorModel>(
            ErrorModel::MissingNamedParam { parameter: names[k]->Some_0 },
        ),
{
    lemma_plan_prefix_all_numbered(None, count, names, nums, k as nat);
    lemma_plan_prefix_err_persists(None, count, names, (k + 1) as nat, names.len());
}

/// Binding from struct fields with only unnamed parameters (`?`), more of
/// them than there are fields: the first one past the last field is
/// refused as unnamed, by its number.
pub proof fn lemma_extra_unnamed_param_is_refused(
    fields: Seq<Seq<char>>,
    names: Seq<Option<Seq<char>>>,
)
    requires
        forall|i: int| 0 <= i < names.len() ==> names[i] is None,
        names.len() > fields.len(),
    ensures
        named_binding(fields, names) == Err::<Seq<nat>, ErrorModel>(
            ErrorModel::UnnamedParameter { index: fields.len() + 1 },
        ),
{
    let n = fields.len();
    lemma_plan_prefix_unnamed(Some(fields), n, names, n);
    lemma_plan_prefix_err_persists(Some(fields), n, names, n + 1, names.len());
}

/// Whether a field's name is one that no parameter among `names` names.
pub open spec fn unnamed_by(names: Seq<Option<Seq<char>>>) -> spec_fn(Seq<char>) -> bool {
    |f: Seq<char>| !field_is_named(names, f)
}

/// The names of the first `j` fields that no parameter took are those of
/// the first `j` fields that no parameter names, in field order, when a
/// field is taken exactly when some parameter names it.
proof fn lemma_unused_prefix_filter(
    fields: Seq<Seq<char>>,
    names: Seq<Option<Seq<char>>>,
    plan: Seq<nat>,
    j: nat,
)
    requires
        j <= fields.len(),
        forall|i: nat| i < fields.len() ==> (plan.contains(i) <==> field_is_named(names, #[trigger] fields[i as int])),
    ensures
        unused_prefix(fields, plan, j) == fields.take(j as int).filter(unnamed_by(names)),
    decreases j,
{
    if j == 0 {
        reveal(Seq::filter);
        assert(fields.take(0) =~= Seq::<Seq<char>>::empty());
    } else {
        lemma_unused_prefix_filter(fields, names, plan, (j - 1) as nat);
        let t = fields.take(j as int);
        assert(t.drop_last() =~= fields.take(j - 1));
        assert(t.last() == fields[j - 1]);
        assert(plan.contains((j - 1) as nat) <==> field_is_named(names, fields[j - 1]));
        reveal(Seq::filter);
        assert(t.filter(unnamed_by(names)) == if unnamed_by(names)(t.last()) {
            t.drop_last().filter(unnamed_by(names)).push(t.last())
        } else {
            t.drop_last().filter(unnamed_by(names))
        });
    }
}

/// Binding from struct fields with distinct names, when every parameter
/// is a named parameter that names a field: the fields that no parameter
/// names are refused, all of them and in field order; when there are none,
/// the binding succeeds.
pub proof fn lemma_unnamed_fields_are_reported_in_order(
    fields: Seq<Seq<char>>,
    names: Seq<Option<Seq<char>>>,
)
    requires
        forall|p: int| 0 <= p < names.len() ==> names_some_field(fields, #[trigger] names[p]),
        forall|i: int, j: int| 0 <= i < j < fields.len() ==> fields[i] != fields[j],
    ensures
        ({
            let left = fields.filter(unnamed_by(names));
            &&& left.len() == 0 ==> named_binding(fields, names) is Ok
            &&& left.len() > 0 ==> named_binding(fields, names) == Err::<Seq<nat>, ErrorModel>(
                ErrorModel::UnusedParamFields { fields: left },
            )
        }),
{
    lemma_plan_prefix_resolved(fields, names, names.len());
    let plan = plan_prefix(Some(fields), fields.len(), names, names.len())->Ok_0.0;
    assert forall|i: nat| i < fields.len() implies (plan.contains(i) <==> field_is_named(
        names,
        #[trigger] fields[i as int],
    )) by {
        if plan.contains(i) {
            let p = choose|p: int| 0 <= p < plan.len() && plan[p] == i;
            assert(is_named(names[p], fields[i as int]));
        }
        if field_is_named(names, fields[i as int]) {
            let p = choose|p: int| 0 <= p < names.len() && is_named(#[trigger] names[p], fields[i as int]);
            assert(fields[plan[p] as int] == fields[i as int]);
            assert(plan[p] == i);
        }
    }
    lemma_unused_prefix_filter(fields, names, plan, fields.len());
    assert(fields.take(fields.len() as int) =~= fields);
}

/// The bindings of a plan: parameter `p + 1` holds value `plan[p]`, for
/// each parameter of the plan, and no other parameter is bound.
pub proof fn lemma_planned_bindings_by_parameter(plan: Seq<nat>, values: Seq<SqlValue>)
    ensures
        planned_bindings(plan, values).dom() == Set::new(|k: int| 1 <= k <= plan.len()),
        forall|p: int| 0 <= p < plan.len() ==> #[trigger] planned_bindings(plan, values)[p + 1]
            == values[plan[p] as int],
{
    assert(planned_bindings(plan, values).dom() =~= Set::new(|k: int| 1 <= k <= plan.len()));
    assert forall|p: int| 0 <= p < plan.len() implies #[trigger] planned_bindings(plan, values)[p
        + 1] == values[plan[p] as int] by {
        assert(planned_bindings(plan, values).dom().contains(p + 1));
    }
}

/// `n` is a bare positional parameter: unnamed, or written `?` alone.
pub open spec fn is_bare(n: Option<Seq<char>>) -> bool {
    n is None || n == Some(seq!['?'])
}

/// How many of the first `k` parameters are bare.
pub open spec fn bare_count(names: Seq<Option<Seq<char>>>, k: nat) -> nat
    decreases k,
{
    if k == 0 {
        0
    } else {
        bare_count(names, (k - 1) as nat) + if is_bare(names[k - 1]) {
            1nat
        } else {
            0nat
        }
    }
}

/// Along a successful plan of `k` parameters the bare parameters take the
/// values in turn, each the one after the last, and only they move on.
proof fn lemma_plan_prefix_cursor(
    fields: Option<Seq<Seq<char>>>,
    count: nat,
    names: Seq<Option<Seq<char>>>,
    k: nat,
)
    requires
        k <= names.len(),
        plan_prefix(fields, count, names, k) is Ok,
    ensures
        ({
            let (plan, cursor) = plan_prefix(fields, count, names, k)->Ok_0;
            &&& cursor == bare_count(names, k)
            &&& forall|p: int| 0 <= p < k && is_bare(names[p]) ==> #[trigger] plan[p] == bare_count(names, p as nat)
        }),
    decreases k,
{
    if k > 0 {
        lemma_plan_prefix_cursor(fields, count, names, (k - 1) as nat);
        lemma_plan_prefix_shape(fields, count, names, (k - 1) as nat);
        let (plan, cursor) = plan_prefix(fields, count, names, (k - 1) as nat)->Ok_0;
        let nm = names[k - 1];
        if nm is Some {
            let n = nm->Some_0;
            if n.len() > 0 && n[0] == '?' && n.drop_first().len() == 0 {
                assert(n =~= seq!['?']);
            }
            if n == seq!['?'] {
                assert(n.drop_first() =~= Seq::<char>::empty());
                assert(!is_name_sigil(n[0]));
            }
        }
        let (plan2, cursor2) = plan_prefix(fields, count, names, k)->Ok_0;
        assert forall|p: int| 0 <= p < k && is_bare(names[p]) implies #[trigger] plan2[p] == bare_count(names, p as nat) by {
            if p < k - 1 {
                assert(plan2[p] == plan[p]);
            }
        }
    }
}

/// Bare positional parameters (unnamed, or `?` alone) take the values in
/// turn: in a successful binding, from struct fields or from a list, the
/// bare parameter at position `p` takes the value numbered by how many bare
/// parameters come before it, whatever named or numbered parameters lie in
/// between.
pub proof fn lemma_bare_params_take_values_in_turn(
    fields: Seq<Seq<char>>,
    count: nat,
    names: Seq<Option<Seq<char>>>,
    p: int,
)
    requires
        0 <= p < names.len(),
        is_bare(names[p]),
    ensures
        named_binding(fields, names) matches Ok(plan) ==> plan[p] == bare_count(names, p as nat),
        list_binding(count, names) matches Ok(plan) ==> plan[p] == bare_count(names, p as nat),
{
    if plan_prefix(Some(fields), fields.len(), names, names.len()) is Ok {
        lemma_plan_prefix_cursor(Some(fields), fields.len(), names, names.len());
    }
    if plan_prefix(None, count, names, names.len()) is Ok {
        lemma_plan_prefix_cursor(None, count, names, names.len());
    }
}
} // verus!
