//! Filters: a path into a document and a condition on the value found there.

use crate::double::Double;
use crate::error::{outcome, Failure, FilterError};
use crate::json::{
    as_array, as_double, as_str, debug_string, equal, get_key, is_object, json_equal, json_of, Json,
};
use crate::path::{mismatch, resolve, resolve_path};
use crate::text::{contains, ends_with, occurs_in, starts_with};
use serde_json::Value;
use vstd::prelude::*;

verus! {

/// A condition on one value.
#[derive(Debug)]
pub enum Operator {
    /// The value is a number greater than the operand.
    GreaterThan(Double),
    /// The value is a number less than the operand.
    LessThan(Double),
    /// The value is a number greater than or equal to the operand.
    GreaterOrEqual(Double),
    /// The value is a number less than or equal to the operand.
    LessOrEqual(Double),
    /// The value is structurally equal to the operand.
    Equals(Value),
    /// The value is not structurally equal to the operand.
    NotEqual(Value),
    /// The value is a string that begins with the operand.
    StartsWith(String),
    /// The value is a string that ends with the operand.
    EndsWith(String),
    /// The value is a string in which the operand occurs.
    Contains(String),
    /// The value is an array, one of whose elements is structurally equal to
    /// the operand.
    ArrayContains(Value),
    /// The value is an object that has the operand among its keys.
    HasKey(String),
    /// Every one of the filters holds of the document.
    And(Vec<Filter>),
    /// At least one of the filters holds of the document.
    Or(Vec<Filter>),
}

/// A path into a document and a condition on the value found there.
#[derive(Debug)]
pub struct Filter {
    pub path: String,
    pub operator: Operator,
}

/// The mathematical model of an [`Operator`].
pub enum OperatorView {
    GreaterThan(Double),
    LessThan(Double),
    GreaterOrEqual(Double),
    LessOrEqual(Double),
    Equals(Json),
    NotEqual(Json),
    StartsWith(Seq<char>),
    EndsWith(Seq<char>),
    Contains(Seq<char>),
    ArrayContains(Json),
    HasKey(Seq<char>),
    And(Seq<FilterView>),
    Or(Seq<FilterView>),
}

/// The mathematical model of a [`Filter`].
pub struct FilterView {
    pub path: Seq<char>,
    pub operator: OperatorView,
}

/// The models of a list of filters, in order.
pub open spec fn views(filters: Seq<Filter>) -> Seq<FilterView>
    decreases filters,
{
    Seq::new(
        filters.len(),
        |i: int|
            if 0 <= i < filters.len() {
                filters[i].model()
            } else {
                arbitrary()
            },
    )
}

impl Operator {
    /// The model of the operator: its operand as a mathematical value, and
    /// for a logical operator the models of its filters.
    pub open spec fn model(self) -> OperatorView
        decreases self,
    {
        match self {
            Operator::GreaterThan(n) => OperatorView::GreaterThan(n),
            Operator::LessThan(n) => OperatorView::LessThan(n),
            Operator::GreaterOrEqual(n) => OperatorView::GreaterOrEqual(n),
            Operator::LessOrEqual(n) => OperatorView::LessOrEqual(n),
            Operator::Equals(operand) => OperatorView::Equals(json_of(operand)),
            Operator::NotEqual(operand) => OperatorView::NotEqual(json_of(operand)),
            Operator::StartsWith(prefix) => OperatorView::StartsWith(prefix@),
            Operator::EndsWith(suffix) => OperatorView::EndsWith(suffix@),
            Operator::Contains(needle) => OperatorView::Contains(needle@),
            Operator::ArrayContains(operand) => OperatorView::ArrayContains(json_of(operand)),
            Operator::HasKey(key) => OperatorView::HasKey(key@),
            Operator::And(filters) => OperatorView::And(views(filters@)),
            Operator::Or(filters) => OperatorView::Or(views(filters@)),
        }
    }
}

impl Filter {
    /// The model of the filter: its path as a sequence of characters, and
    /// the model of its operator.
    pub open spec fn model(self) -> FilterView
        decreases self,
    {
        FilterView { path: self.path@, operator: self.operator.model() }
    }
}

impl View for Operator {
    type V = OperatorView;

    open spec fn view(&self) -> OperatorView {
        self.model()
    }
}

impl View for Filter {
    type V = FilterView;

    open spec fn view(&self) -> FilterView {
        self.model()
    }
}

/// Whether two operators are equal: they are of one kind, and their
/// operands are equal.  Numbers are equal as doubles are, so that the two
/// zeros are equal and a NaN equals nothing; documents are equal
/// structurally; lists of filters are equal filter by filter, in order.
pub open spec fn same_operator(a: OperatorView, b: OperatorView) -> bool
    decreases a,
{
    match (a, b) {
        (OperatorView::GreaterThan(x), OperatorView::GreaterThan(y)) => x.same(y),
        (OperatorView::LessThan(x), OperatorView::LessThan(y)) => x.same(y),
        (OperatorView::GreaterOrEqual(x), OperatorView::GreaterOrEqual(y)) => x.same(y),
        (OperatorView::LessOrEqual(x), OperatorView::LessOrEqual(y)) => x.same(y),
        (OperatorView::Equals(x), OperatorView::Equals(y)) => json_equal(x, y),
        (OperatorView::NotEqual(x), OperatorView::NotEqual(y)) => json_equal(x, y),
        (OperatorView::StartsWith(x), OperatorView::StartsWith(y)) => x == y,
        (OperatorView::EndsWith(x), OperatorView::EndsWith(y)) => x == y,
        (OperatorView::Contains(x), OperatorView::Contains(y)) => x == y,
        (OperatorView::ArrayContains(x), OperatorView::ArrayContains(y)) => json_equal(x, y),
        (OperatorView::HasKey(x), OperatorView::HasKey(y)) => x == y,
        (OperatorView::And(x), OperatorView::And(y)) => x.len() == y.len() && forall|i: int|
            0 <= i < x.len() ==> same_filter(#[trigger] x[i], y[i]),
        (OperatorView::Or(x), OperatorView::Or(y)) => x.len() == y.len() && forall|i: int|
            0 <= i < x.len() ==> same_filter(#[trigger] x[i], y[i]),
        _ => false,
    }
}

/// Whether two filters are equal: they have one path and equal operators.
pub open spec fn same_filter(a: FilterView, b: FilterView) -> bool
    decreases a,
{
    a.path == b.path && same_operator(a.operator, b.operator)
}

/// Whether one of `items` is structurally equal to `operand`.
pub open spec fn includes(items: Seq<Json>, operand: Json) -> bool {
    exists|i: int| 0 <= i < items.len() && json_equal(#[trigger] items[i], operand)
}

/// Whether an outcome is the verdict "true".
pub open spec fn holds(o: Result<bool, Failure>) -> bool {
    o == Ok::<bool, Failure>(true)
}

/// The failure of the first outcome, from the left, that is one.
pub open spec fn first_failure(outcomes: Seq<Result<bool, Failure>>) -> Option<Failure>
    decreases outcomes.len(),
{
    if outcomes.len() == 0 {
        None
    } else {
        match first_failure(outcomes.drop_last()) {
            Some(e) => Some(e),
            None => match outcomes.last() {
                Err(e) => Some(e),
                Ok(_) => None,
            },
        }
    }
}

/// All of the outcomes together: the first failure where there is one, and
/// else whether every verdict is "true".
pub open spec fn conjunction(outcomes: Seq<Result<bool, Failure>>) -> Result<bool, Failure> {
    match first_failure(outcomes) {
        Some(e) => Err(e),
        None => Ok(forall|i: int| 0 <= i < outcomes.len() ==> holds(#[trigger] outcomes[i])),
    }
}

/// Any of the outcomes: the first failure where there is one, and else
/// whether some verdict is "true".
pub open spec fn disjunction(outcomes: Seq<Result<bool, Failure>>) -> Result<bool, Failure> {
    match first_failure(outcomes) {
        Some(e) => Err(e),
        None => Ok(exists|i: int| 0 <= i < outcomes.len() && holds(#[trigger] outcomes[i])),
    }
}

/// The outcomes of `filters` on `doc`, in order, each filter evaluated on
/// its own.
pub open spec fn outcomes(filters: Seq<FilterView>, doc: Json) -> Seq<Result<bool, Failure>>
    decreases filters,
{
    Seq::new(
        filters.len(),
        |i: int|
            if 0 <= i < filters.len() {
                filters[i].eval(doc)
            } else {
                Ok(true)
            },
    )
}

impl OperatorView {
    /// What the operator says of `target`, the value that the path of its
    /// filter led to in `doc`.
    ///
    /// A comparison needs a number, a string test a string, a search for an
    /// element an array and a search for a key an object: any other kind of
    /// value is a type mismatch.  A number is compared with the operand as
    /// doubles are, so no comparison holds with an operand that is a NaN.
    /// Equality takes any value.  The logical
    /// operators do not look at `target`: they evaluate their filters
    /// against `doc`, each from its own path, and combine the outcomes.
    pub open spec fn apply(self, target: Json, doc: Json) -> Result<bool, Failure>
        decreases self,
    {
        match self {
            OperatorView::GreaterThan(n) => match target {
                Json::Number(x) => Ok(x.above(n)),
                _ => Err(mismatch("number"@, target)),
            },
            OperatorView::LessThan(n) => match target {
                Json::Number(x) => Ok(x.below(n)),
                _ => Err(mismatch("number"@, target)),
            },
            OperatorView::GreaterOrEqual(n) => match target {
                Json::Number(x) => Ok(x.at_least(n)),
                _ => Err(mismatch("number"@, target)),
            },
            OperatorView::LessOrEqual(n) => match target {
                Json::Number(x) => Ok(x.at_most(n)),
                _ => Err(mismatch("number"@, target)),
            },
            OperatorView::Equals(operand) => Ok(json_equal(target, operand)),
            OperatorView::NotEqual(operand) => Ok(!json_equal(target, operand)),
            OperatorView::StartsWith(prefix) => match target {
                Json::String(s) => Ok(prefix.is_prefix_of(s)),
                _ => Err(mismatch("string"@, target)),
            },
            OperatorView::EndsWith(suffix) => match target {
                Json::String(s) => Ok(suffix.is_suffix_of(s)),
                _ => Err(mismatch("string"@, target)),
            },
            OperatorView::Contains(needle) => match target {
                Json::String(s) => Ok(occurs_in(needle, s)),
                _ => Err(mismatch("string"@, target)),
            },
            OperatorView::ArrayContains(operand) => match target {
                Json::Array(items) => Ok(includes(items, operand)),
                _ => Err(mismatch("array"@, target)),
            },
            OperatorView::HasKey(key) => match target {
                Json::Object(members) => Ok(members.contains_key(key)),
                _ => Err(mismatch("object"@, target)),
            },
            OperatorView::And(filters) => conjunction(outcomes(filters, doc)),
            OperatorView::Or(filters) => disjunction(outcomes(filters, doc)),
        }
    }
}

impl FilterView {
    /// Whether the filter holds of `doc`: its path is resolved in `doc`, and
    /// its operator applied to the value found.  A path that does not
    /// resolve fails the filter, whatever its operator.
    pub open spec fn eval(self, doc: Json) -> Result<bool, Failure>
        decreases self,
    {
        match resolve(self.path, doc) {
            Err(e) => Err(e),
            Ok(target) => self.operator.apply(target, doc),
        }
    }
}

/// With no failure among the first outcomes, the first failure of all is
/// the first among the rest.
pub proof fn lemma_first_failure_at(all: Seq<Result<bool, Failure>>, i: int)
    requires
        0 <= i < all.len(),
        first_failure(all.take(i)) is None,
        all[i] is Err,
    ensures
        first_failure(all) == Some(all[i]->Err_0),
    decreases all.len() - i,
{
    let next = all.take(i + 1);
    assert(next.drop_last() == all.take(i));
    lemma_first_failure_stays(all, i + 1);
}

/// A failure among the first outcomes is the first failure of all.
pub proof fn lemma_first_failure_stays(all: Seq<Result<bool, Failure>>, i: int)
    requires
        0 <= i <= all.len(),
        first_failure(all.take(i)) is Some,
    ensures
        first_failure(all) == first_failure(all.take(i)),
    decreases all.len() - i,
{
    if i == all.len() {
        assert(all.take(i) == all);
    } else {
        let next = all.take(i + 1);
        assert(next.drop_last() == all.take(i));
        lemma_first_failure_stays(all, i + 1);
    }
}

/// The error of an operator that needs a value of the kind named `expected`
/// and is given `found`.
fn wrong_kind(expected: &str, found: &Value) -> (e: FilterError)
    ensures
        e@ == mismatch(expected@, json_of(*found)),
{
    FilterError::TypeMismatch { expected: String::from_str(expected), got: debug_string(found) }
}

/// Whether every one of the verdicts is "true".
fn all_of(verdicts: &Vec<bool>) -> (r: bool)
    ensures
        r == forall|i: int| 0 <= i < verdicts.len() ==> verdicts[i],
{
    let mut i: usize = 0;
    while i < verdicts.len()
        invariant
            i <= verdicts.len(),
            forall|j: int| 0 <= j < i ==> verdicts[j],
        decreases verdicts.len() - i,
    {
        if !verdicts[i] {
            return false;
        }
        i += 1;
    }
    true
}

/// Whether at least one of the verdicts is "true".
fn any_of(verdicts: &Vec<bool>) -> (r: bool)
    ensures
        r == exists|i: int| 0 <= i < verdicts.len() && verdicts[i],
{
    let mut i: usize = 0;
    while i < verdicts.len()
        invariant
            i <= verdicts.len(),
            forall|j: int| 0 <= j < i ==> !verdicts[j],
        decreases verdicts.len() - i,
    {
        if verdicts[i] {
            return true;
        }
        i += 1;
    }
    false
}

/// Whether one of the elements of the array `target` is structurally equal
/// to `operand`; a type mismatch where `target` is no array.
fn array_contains(target: &Value, operand: &Value) -> (r: Result<bool, FilterError>)
    ensures
        outcome(r) == match json_of(*target) {
            Json::Array(items) => Ok::<bool, Failure>(includes(items, json_of(*operand))),
            _ => Err::<bool, Failure>(mismatch("array"@, json_of(*target))),
        },
{
    match as_array(target) {
        None => Err(wrong_kind("array", target)),
        Some(items) => {
            let ghost models = json_of(*target)->Array_0;
            let ghost wanted = json_of(*operand);
            let mut i: usize = 0;
            while i < items.len()
                invariant
                    i <= items.len() == models.len(),
                    json_of(*target) == Json::Array(models),
                    wanted == json_of(*operand),
                    forall|j: int| 0 <= j < items.len() ==> json_of(#[trigger] items[j]) == models[j],
                    forall|j: int| 0 <= j < i ==> !json_equal(#[trigger] models[j], wanted),
                decreases items.len() - i,
            {
                if equal(&items[i], operand) {
                    return Ok(true);
                }
                i += 1;
            }
            Ok(false)
        },
    }
}

/// Evaluates every one of `filters` against `value`, in order, and stops at
/// the first that fails.
fn check_each(filters: &Vec<Filter>, value: &Value) -> (r: Result<Vec<bool>, FilterError>)
    ensures
        match r {
            Ok(verdicts) => {
                &&& first_failure(outcomes(views(filters@), json_of(*value))) is None
                &&& verdicts.len() == filters.len()
                &&& forall|i: int|
                    0 <= i < filters.len() ==> outcomes(views(filters@), json_of(*value))[i] == Ok::<
                        bool,
                        Failure,
                    >(#[trigger] verdicts[i])
            },
            Err(e) => first_failure(outcomes(views(filters@), json_of(*value))) == Some(e@),
        },
    decreases filters, 2int,
{
    let ghost all = outcomes(views(filters@), json_of(*value));
    let mut verdicts: Vec<bool> = Vec::new();
    let mut i: usize = 0;
    while i < filters.len()
        invariant
            i <= filters.len(),
            all == outcomes(views(filters@), json_of(*value)),
            first_failure(all.take(i as int)) is None,
            verdicts.len() == i,
            forall|j: int| 0 <= j < i ==> all[j] == Ok::<bool, Failure>(#[trigger] verdicts[j]),
        decreases filters.len() - i,
    {
        let one = filters[i].check(value);
        proof {
            let next = all.take(i + 1);
            assert(next.drop_last() == all.take(i as int));
        }
        match one {
            Err(e) => {
                proof {
                    lemma_first_failure_at(all, i as int);
                }
                return Err(e);
            },
            Ok(verdict) => {
                verdicts.push(verdict);
            },
        }
        i += 1;
    }
    assert(all.take(filters.len() as int) == all);
    Ok(verdicts)
}

/// Whether every one of `filters` holds of `value`.
fn check_all(filters: &Vec<Filter>, value: &Value) -> (r: Result<bool, FilterError>)
    ensures
        outcome(r) == conjunction(outcomes(views(filters@), json_of(*value))),
    decreases filters, 3int,
{
    match check_each(filters, value) {
        Err(e) => Err(e),
        Ok(verdicts) => {
            let all = all_of(&verdicts);
            proof {
                let each = outcomes(views(filters@), json_of(*value));
                assert forall|i: int| 0 <= i < each.len() implies holds(#[trigger] each[i])
                    == verdicts[i] by {}
            }
            Ok(all)
        },
    }
}

/// Whether at least one of `filters` holds of `value`.
fn check_any(filters: &Vec<Filter>, value: &Value) -> (r: Result<bool, FilterError>)
    ensures
        outcome(r) == disjunction(outcomes(views(filters@), json_of(*value))),
    decreases filters, 3int,
{
    match check_each(filters, value) {
        Err(e) => Err(e),
        Ok(verdicts) => {
            let any = any_of(&verdicts);
            proof {
                let each = outcomes(views(filters@), json_of(*value));
                assert forall|i: int| 0 <= i < each.len() implies holds(#[trigger] each[i])
                    == verdicts[i] by {}
                if any {
                    let i = choose|i: int| 0 <= i < verdicts.len() && verdicts[i];
                    assert(holds(each[i]));
                }
            }
            Ok(any)
        },
    }
}

impl Filter {
    /// The filter that tests the value at `path` with `operator`.
    pub fn new(path: &str, operator: Operator) -> (r: Filter)
        ensures
            r.path@ == path@,
            r.operator == operator,
    {
        Filter { path: String::from_str(path), operator }
    }

    /// Whether the filter holds of `value`.
    ///
    /// The path is resolved in `value` and the operator applied to what it
    /// leads to.  The result is an error where the path does not resolve or
    /// the operator meets a value of a kind it cannot take; for the logical
    /// operators, the error of the first of their filters that has one.
    pub fn check(&self, value: &Value) -> (r: Result<bool, FilterError>)
        ensures
            outcome(r) == self@.eval(json_of(*value)),
        decreases self, 1int,
    {
        match resolve_path(self.path.as_str(), value) {
            Err(e) => Err(e),
            Ok(target) => self.check_operator(target, value),
        }
    }

    /// What the operator of the filter says of `target`, the value that the
    /// path led to in `value`.
    pub fn check_operator(&self, target: &Value, value: &Value) -> (r: Result<bool, FilterError>)
        ensures
            outcome(r) == self@.operator.apply(json_of(*target), json_of(*value)),
        decreases self, 0int,
    {
        match &self.operator {
            Operator::GreaterThan(n) => match as_double(target) {
                Some(x) => Ok(x.gt(n)),
                None => Err(wrong_kind("number", target)),
            },
            Operator::LessThan(n) => match as_double(target) {
                Some(x) => Ok(x.lt(n)),
                None => Err(wrong_kind("number", target)),
            },
            Operator::GreaterOrEqual(n) => match as_double(target) {
                Some(x) => Ok(x.ge(n)),
                None => Err(wrong_kind("number", target)),
            },
            Operator::LessOrEqual(n) => match as_double(target) {
                Some(x) => Ok(x.le(n)),
                None => Err(wrong_kind("number", target)),
            },
            Operator::Equals(operand) => Ok(equal(target, operand)),
            Operator::NotEqual(operand) => Ok(!equal(target, operand)),
            Operator::StartsWith(prefix) => match as_str(target) {
                Some(s) => Ok(starts_with(s, prefix)),
                None => Err(wrong_kind("string", target)),
            },
            Operator::EndsWith(suffix) => match as_str(target) {
                Some(s) => Ok(ends_with(s, suffix)),
                None => Err(wrong_kind("string", target)),
            },
            Operator::Contains(needle) => match as_str(target) {
                Some(s) => Ok(contains(s, needle.as_str())),
                None => Err(wrong_kind("string", target)),
            },
            Operator::ArrayContains(operand) => array_contains(target, operand),
            Operator::HasKey(key) => if is_object(target) {
                Ok(get_key(target, key.as_str()).is_some())
            } else {
                Err(wrong_kind("object", target))
            },
            Operator::And(filters) => check_all(filters, value),
            Operator::Or(filters) => check_any(filters, value),
        }
    }
}

/// Copies of `filters`, in order.
fn clone_each(filters: &Vec<Filter>) -> (r: Vec<Filter>)
    ensures
        views(r@) == views(filters@),
    decreases filters, 0int,
{
    let mut copies: Vec<Filter> = Vec::new();
    let mut i: usize = 0;
    while i < filters.len()
        invariant
            i <= filters.len(),
            copies.len() == i,
            forall|j: int| 0 <= j < i ==> copies[j]@ == filters[j]@,
        decreases filters.len() - i,
    {
        let copy = filters[i].clone();
        copies.push(copy);
        i += 1;
    }
    copies
}

impl Clone for Operator {
    /// A copy with the same model.
    fn clone(&self) -> (r: Operator)
        ensures
            r@ == self@,
        decreases self, 1int,
    {
        match self {
            Operator::GreaterThan(n) => Operator::GreaterThan(*n),
            Operator::LessThan(n) => Operator::LessThan(*n),
            Operator::GreaterOrEqual(n) => Operator::GreaterOrEqual(*n),
            Operator::LessOrEqual(n) => Operator::LessOrEqual(*n),
            Operator::Equals(operand) => Operator::Equals(operand.clone()),
            Operator::NotEqual(operand) => Operator::NotEqual(operand.clone()),
            Operator::StartsWith(prefix) => Operator::StartsWith(prefix.clone()),
            Operator::EndsWith(suffix) => Operator::EndsWith(suffix.clone()),
            Operator::Contains(needle) => Operator::Contains(needle.clone()),
            Operator::ArrayContains(operand) => Operator::ArrayContains(operand.clone()),
            Operator::HasKey(key) => Operator::HasKey(key.clone()),
            Operator::And(filters) => Operator::And(clone_each(filters)),
            Operator::Or(filters) => Operator::Or(clone_each(filters)),
        }
    }
}

impl Clone for Filter {
    /// A copy with the same model, which therefore gives the same outcome
    /// on every document.
    fn clone(&self) -> (r: Filter)
        ensures
            r@ == self@,
        decreases self, 2int,
    {
        Filter { path: self.path.clone(), operator: self.operator.clone() }
    }
}

/// Whether two lists of filters are equal, filter by filter.
fn equal_each(a: &Vec<Filter>, b: &Vec<Filter>) -> (r: bool)
    ensures
        r == (a.len() == b.len() && forall|i: int|
            0 <= i < a.len() ==> same_filter(#[trigger] views(a@)[i], views(b@)[i])),
    decreases a, 0int,
{
    if a.len() != b.len() {
        return false;
    }
    let mut i: usize = 0;
    while i < a.len()
        invariant
            i <= a.len() == b.len(),
            forall|j: int| 0 <= j < i ==> same_filter(#[trigger] views(a@)[j], views(b@)[j]),
        decreases a.len() - i,
    {
        let same = a[i].eq(&b[i]);
        proof {
            assert(views(a@)[i as int] == a[i as int]@);
            assert(views(b@)[i as int] == b[i as int]@);
        }
        if !same {
            return false;
        }
        i += 1;
    }
    true
}

impl PartialEq for Operator {
    /// Whether the two operators are equal, as `same_operator` describes.
    fn eq(&self, other: &Operator) -> (r: bool)
        decreases self, 1int,
    {
        match (self, other) {
            (Operator::GreaterThan(x), Operator::GreaterThan(y)) => x.equals(y),
            (Operator::LessThan(x), Operator::LessThan(y)) => x.equals(y),
            (Operator::GreaterOrEqual(x), Operator::GreaterOrEqual(y)) => x.equals(y),
            (Operator::LessOrEqual(x), Operator::LessOrEqual(y)) => x.equals(y),
            (Operator::Equals(x), Operator::Equals(y)) => equal(x, y),
            (Operator::NotEqual(x), Operator::NotEqual(y)) => equal(x, y),
            (Operator::StartsWith(x), Operator::StartsWith(y)) => *x == *y,
            (Operator::EndsWith(x), Operator::EndsWith(y)) => *x == *y,
            (Operator::Contains(x), Operator::Contains(y)) => *x == *y,
            (Operator::ArrayContains(x), Operator::ArrayContains(y)) => equal(x, y),
            (Operator::HasKey(x), Operator::HasKey(y)) => *x == *y,
            (Operator::And(x), Operator::And(y)) => {
                assert(views(x@).len() == x.len() && views(y@).len() == y.len());
                equal_each(x, y)
            },
            (Operator::Or(x), Operator::Or(y)) => {
                assert(views(x@).len() == x.len() && views(y@).len() == y.len());
                equal_each(x, y)
            },
            _ => false,
        }
    }
}

impl vstd::std_specs::cmp::PartialEqSpecImpl for Operator {
    open spec fn obeys_eq_spec() -> bool {
        true
    }

    open spec fn eq_spec(&self, other: &Operator) -> bool {
        same_operator(self@, other@)
    }
}

impl PartialEq for Filter {
    /// Whether the two filters are equal, as `same_filter` describes.
    fn eq(&self, other: &Filter) -> (r: bool)
        decreases self, 2int,
    {
        self.path == other.path && self.operator.eq(&other.operator)
    }
}

impl vstd::std_specs::cmp::PartialEqSpecImpl for Filter {
    open spec fn obeys_eq_spec() -> bool {
        true
    }

    open spec fn eq_spec(&self, other: &Filter) -> bool {
        same_filter(self@, other@)
    }
}

} // verus!
