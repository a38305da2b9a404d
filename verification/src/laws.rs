//! Laws: what holds of every filter, every path and every document.
//!
//! Each is stated over the models that the contracts of the executable
//! functions use, so it holds of whatever those functions return.

use crate::double::Double;
use crate::error::Failure;
use crate::filter::{
    conjunction, disjunction, first_failure, holds, includes, outcomes, same_filter,
    same_operator, FilterView, OperatorView,
};
use crate::json::{json_equal, Json, JsonNumber};
use crate::path::{resolve, step, walk};
use crate::text::{first_index, lemma_first_index, lemma_first_index_unique, split};
use vstd::prelude::*;

verus! {

/// What follows a first result: the second step from the value reached, or
/// the failure that ended the first.
pub open spec fn and_then(
    first: Result<Json, Failure>,
    second: spec_fn(Json) -> Result<Json, Failure>,
) -> Result<Json, Failure> {
    match first {
        Ok(reached) => second(reached),
        Err(e) => Err(e),
    }
}

/// A document's number is compared as a double is: where its double is no
/// NaN, which is so of every number in a document, the comparisons of the
/// number are those of its double.
pub proof fn law_number_compares_as_its_double(x: JsonNumber, n: Double)
    requires
        !x.double.is_nan(),
    ensures
        x.above(n) == x.double.above(n),
        x.below(n) == x.double.below(n),
        x.at_least(n) == x.double.at_least(n),
        x.at_most(n) == x.double.at_most(n),
        x.same(n) == x.double.same(n),
{
}

/// Each comparison holds of exactly the numbers that stand in its relation
/// to the operand: of no value that is not a number, and of no value under a
/// path that does not resolve.
pub proof fn law_comparisons(path: Seq<char>, n: Double, doc: Json)
    ensures
        holds(FilterView { path, operator: OperatorView::GreaterThan(n) }.eval(doc)) <==> (resolve(
            path,
            doc,
        ) matches Ok(Json::Number(x)) && x.above(n)),
        holds(FilterView { path, operator: OperatorView::LessThan(n) }.eval(doc)) <==> (resolve(
            path,
            doc,
        ) matches Ok(Json::Number(x)) && x.below(n)),
        holds(FilterView { path, operator: OperatorView::GreaterOrEqual(n) }.eval(doc)) <==> (
        resolve(path, doc) matches Ok(Json::Number(x)) && x.at_least(n)),
        holds(FilterView { path, operator: OperatorView::LessOrEqual(n) }.eval(doc)) <==> (resolve(
            path,
            doc,
        ) matches Ok(Json::Number(x)) && x.at_most(n)),
{
}

/// The four comparisons succeed and fail together, with the same error.
/// Of a number, and with an operand that is no NaN, they divide the line:
/// exactly one of "greater", "less" and "equal" holds, where "equal" is
/// "greater or equal" together with "less or equal"; "greater or equal" is
/// "greater" or "equal", and the opposite of "less"; "less or equal" is
/// "less" or "equal", and the opposite of "greater".  With an operand that
/// is a NaN none of the four holds.
pub proof fn law_comparisons_partition(path: Seq<char>, n: Double, doc: Json)
    ensures
        ({
            let gt = FilterView { path, operator: OperatorView::GreaterThan(n) }.eval(doc);
            let lt = FilterView { path, operator: OperatorView::LessThan(n) }.eval(doc);
            let ge = FilterView { path, operator: OperatorView::GreaterOrEqual(n) }.eval(doc);
            let le = FilterView { path, operator: OperatorView::LessOrEqual(n) }.eval(doc);
            let eq = holds(ge) && holds(le);
            &&& gt is Err ==> lt == gt && ge == gt && le == gt
            &&& gt is Ok <==> (resolve(path, doc) is Ok && resolve(path, doc)->Ok_0 is Number)
            &&& gt is Ok ==> lt is Ok && ge is Ok && le is Ok
            &&& gt is Ok && !n.is_nan() ==> {
                &&& holds(gt) || holds(lt) || eq
                &&& !(holds(gt) && holds(lt))
                &&& !(holds(gt) && eq)
                &&& !(holds(lt) && eq)
                &&& holds(ge) == (holds(gt) || eq)
                &&& holds(le) == (holds(lt) || eq)
                &&& holds(ge) == !holds(lt)
                &&& holds(le) == !holds(gt)
            }
            &&& gt is Ok && n.is_nan() ==> !holds(gt) && !holds(lt) && !holds(ge) && !holds(le)
        }),
{
}

/// The same of the operator alone, as `check_operator` applies it to a value
/// that is a number: with an operand that is no NaN, exactly one of
/// "greater", "less" and "equal" holds, and the two weak comparisons are the
/// opposites of the two strict ones.
pub proof fn law_operators_partition(x: JsonNumber, n: Double, doc: Json)
    requires
        !n.is_nan(),
    ensures
        ({
            let target = Json::Number(x);
            let gt = OperatorView::GreaterThan(n).apply(target, doc);
            let lt = OperatorView::LessThan(n).apply(target, doc);
            let ge = OperatorView::GreaterOrEqual(n).apply(target, doc);
            let le = OperatorView::LessOrEqual(n).apply(target, doc);
            let eq = holds(ge) && holds(le);
            &&& gt is Ok && lt is Ok && ge is Ok && le is Ok
            &&& holds(gt) || holds(lt) || eq
            &&& !(holds(gt) && holds(lt))
            &&& !(holds(gt) && eq)
            &&& !(holds(lt) && eq)
            &&& holds(ge) == (holds(gt) || eq)
            &&& holds(le) == (holds(lt) || eq)
            &&& holds(ge) == !holds(lt)
            &&& holds(le) == !holds(gt)
        }),
{
}

/// `Equals` and `NotEqual` with one operand, at one path, succeed and fail
/// together; where they succeed their verdicts are opposite, and where they
/// fail their errors are the same.  Neither fails for the kind of the value.
pub proof fn law_equals_opposes_not_equal(path: Seq<char>, operand: Json, doc: Json)
    ensures
        ({
            let eq = FilterView { path, operator: OperatorView::Equals(operand) }.eval(doc);
            let ne = FilterView { path, operator: OperatorView::NotEqual(operand) }.eval(doc);
            match (eq, ne) {
                (Ok(a), Ok(b)) => a == !b && resolve(path, doc) is Ok,
                (Err(e), Err(f)) => e == f && resolve(path, doc) == Err::<Json, Failure>(e),
                _ => false,
            }
        }),
{
}

/// The pieces of two sequences joined by a separator are the pieces of the
/// first followed by the pieces of the second.
pub proof fn lemma_split_joined(p: Seq<char>, q: Seq<char>, sep: char)
    ensures
        split(p + seq![sep] + q, sep) == split(p, sep) + split(q, sep),
    decreases p.len(),
{
    let joined = p + seq![sep] + q;
    let i = first_index(p, sep) as int;
    lemma_first_index(p, sep);
    if i >= p.len() {
        assert(joined[p.len() as int] == sep);
        lemma_first_index_unique(joined, sep, p.len() as int);
        assert(joined.take(p.len() as int) == p);
        assert(joined.skip(p.len() as int + 1) == q);
        assert(split(p, sep) == seq![p]);
    } else {
        assert(joined[i] == sep);
        lemma_first_index_unique(joined, sep, i);
        assert(joined.take(i) == p.take(i));
        assert(joined.skip(i + 1) == p.skip(i + 1) + seq![sep] + q);
        lemma_split_joined(p.skip(i + 1), q, sep);
        assert(seq![p.take(i)] + (split(p.skip(i + 1), sep) + split(q, sep)) == (seq![p.take(i)]
            + split(p.skip(i + 1), sep)) + split(q, sep));
    }
}

/// A walk along two lists of segments, one after the other, is the walk
/// along the first followed by the walk along the second from where the
/// first ended.
pub proof fn lemma_walk_joined(a: Seq<Seq<char>>, b: Seq<Seq<char>>, doc: Json)
    ensures
        walk(a + b, doc) == and_then(walk(a, doc), |mid: Json| walk(b, mid)),
    decreases a.len(),
{
    if a.len() == 0 {
        assert(a + b == b);
    } else {
        assert((a + b)[0] == a[0]);
        assert((a + b).drop_first() == a.drop_first() + b);
        match step(a[0], doc) {
            Ok(next) => {
                lemma_walk_joined(a.drop_first(), b, next);
            },
            Err(_) => {},
        }
    }
}

/// Resolving a path is resolving its parts one after the other: the path
/// made of `p`, a dot and `q` leads where `q` leads from the value that `p`
/// leads to, and fails as the first of the two that fails.
///
/// The path `.` is not cut into segments, so the law speaks of paths none of
/// which is that one: neither `p`, nor `q`, nor the two joined.
pub proof fn law_resolve_joined(p: Seq<char>, q: Seq<char>, doc: Json)
    requires
        p != seq!['.'],
        q != seq!['.'],
        p.len() + q.len() > 0,
    ensures
        resolve(p + seq!['.'] + q, doc) == and_then(resolve(p, doc), |mid: Json| resolve(q, mid)),
{
    let joined = p + seq!['.'] + q;
    assert(joined.len() == p.len() + 1 + q.len());
    lemma_split_joined(p, q, '.');
    lemma_walk_joined(split(p, '.'), split(q, '.'), doc);
}

/// The outcomes of a list of filters are those of its members, one for one.
pub proof fn lemma_outcomes(filters: Seq<FilterView>, doc: Json)
    ensures
        outcomes(filters, doc).len() == filters.len(),
        forall|i: int|
            0 <= i < filters.len() ==> #[trigger] outcomes(filters, doc)[i] == filters[i].eval(doc),
{
}

/// The first failure of a list of outcomes is that of the first outcome that
/// is one, and there is none exactly where every outcome is a verdict.
pub proof fn lemma_first_failure(all: Seq<Result<bool, Failure>>)
    ensures
        first_failure(all) is None <==> forall|i: int| 0 <= i < all.len() ==> all[i] is Ok,
        forall|i: int|
            0 <= i < all.len() && all[i] is Err && (forall|j: int| 0 <= j < i ==> all[j] is Ok)
                ==> first_failure(all) == Some(all[i]->Err_0),
    decreases all.len(),
{
    if all.len() > 0 {
        let front = all.drop_last();
        lemma_first_failure(front);
        assert forall|i: int| 0 <= i < front.len() implies front[i] == all[i] by {}
        if first_failure(front) is None {
            assert forall|i: int| 0 <= i < all.len() && first_failure(all) is None implies all[i] is Ok by {
                if i < front.len() {
                    assert(front[i] is Ok);
                }
            }
        } else {
            let k = choose|k: int| 0 <= k < front.len() && !(front[k] is Ok);
            assert(!(all[k] is Ok));
        }
        assert forall|i: int|
            0 <= i < all.len() && all[i] is Err && (forall|j: int| 0 <= j < i ==> all[j] is Ok)
            implies first_failure(all) == Some(all[i]->Err_0) by {
            if i < front.len() {
                assert(front[i] is Err);
                assert forall|j: int| 0 <= j < i implies front[j] is Ok by {
                    assert(all[j] is Ok);
                }
            } else {
                assert forall|j: int| 0 <= j < front.len() implies front[j] is Ok by {
                    assert(all[j] is Ok);
                }
            }
        }
    }
}

/// `And` at the path `.` is the conjunction of its filters, each evaluated
/// on its own against the same document.  Where every filter gives a
/// verdict the result is whether all verdicts are "true"; where one fails,
/// the result is the failure of the first that does.
pub proof fn law_and_is_conjunction(filters: Seq<FilterView>, doc: Json)
    ensures
        ({
            let all = FilterView { path: seq!['.'], operator: OperatorView::And(filters) }.eval(doc);
            &&& all == conjunction(outcomes(filters, doc))
            &&& (forall|i: int| 0 <= i < filters.len() ==> filters[i].eval(doc) is Ok) ==> all == Ok::<
                bool,
                Failure,
            >(forall|i: int| 0 <= i < filters.len() ==> holds(filters[i].eval(doc)))
            &&& forall|i: int|
                0 <= i < filters.len() && filters[i].eval(doc) is Err && (forall|j: int|
                    0 <= j < i ==> filters[j].eval(doc) is Ok) ==> all == filters[i].eval(doc)
        }),
{
    let each = outcomes(filters, doc);
    lemma_outcomes(filters, doc);
    lemma_first_failure(each);
    if forall|i: int| 0 <= i < filters.len() ==> filters[i].eval(doc) is Ok {
        assert forall|i: int| 0 <= i < each.len() implies each[i] is Ok by {
            assert(each[i] == filters[i].eval(doc));
        }
        assert((forall|i: int| 0 <= i < each.len() ==> holds(#[trigger] each[i])) == (forall|i: int|
            0 <= i < filters.len() ==> holds(filters[i].eval(doc)))) by {
            if forall|i: int| 0 <= i < each.len() ==> holds(#[trigger] each[i]) {
                assert forall|i: int| 0 <= i < filters.len() implies holds(
                    filters[i].eval(doc),
                ) by {
                    assert(holds(each[i]));
                }
            }
        }
    }
    assert forall|i: int|
        0 <= i < filters.len() && filters[i].eval(doc) is Err && (forall|j: int|
            0 <= j < i ==> filters[j].eval(doc) is Ok) implies conjunction(each) == filters[i].eval(
        doc,
    ) by {
        assert(each[i] is Err);
        assert forall|j: int| 0 <= j < i implies each[j] is Ok by {
            assert(filters[j].eval(doc) is Ok);
        }
    }
}

/// `Or` at the path `.` is the disjunction of its filters, each evaluated
/// on its own against the same document.  Where every filter gives a
/// verdict the result is whether some verdict is "true"; where one fails,
/// the result is the failure of the first that does, even after a filter
/// that holds.
pub proof fn law_or_is_disjunction(filters: Seq<FilterView>, doc: Json)
    ensures
        ({
            let any = FilterView { path: seq!['.'], operator: OperatorView::Or(filters) }.eval(doc);
            &&& any == disjunction(outcomes(filters, doc))
            &&& (forall|i: int| 0 <= i < filters.len() ==> filters[i].eval(doc) is Ok) ==> any == Ok::<
                bool,
                Failure,
            >(exists|i: int| 0 <= i < filters.len() && holds(filters[i].eval(doc)))
            &&& forall|i: int|
                0 <= i < filters.len() && filters[i].eval(doc) is Err && (forall|j: int|
                    0 <= j < i ==> filters[j].eval(doc) is Ok) ==> any == filters[i].eval(doc)
        }),
{
    let each = outcomes(filters, doc);
    lemma_outcomes(filters, doc);
    lemma_first_failure(each);
    if forall|i: int| 0 <= i < filters.len() ==> filters[i].eval(doc) is Ok {
        assert forall|i: int| 0 <= i < each.len() implies each[i] is Ok by {
            assert(each[i] == filters[i].eval(doc));
        }
        assert((exists|i: int| 0 <= i < each.len() && holds(#[trigger] each[i])) == (exists|i: int|
            0 <= i < filters.len() && holds(filters[i].eval(doc)))) by {
            if exists|i: int| 0 <= i < each.len() && holds(#[trigger] each[i]) {
                let i = choose|i: int| 0 <= i < each.len() && holds(#[trigger] each[i]);
                assert(holds(filters[i].eval(doc)));
            }
            if exists|i: int| 0 <= i < filters.len() && holds(filters[i].eval(doc)) {
                let i = choose|i: int| 0 <= i < filters.len() && holds(filters[i].eval(doc));
                assert(holds(each[i]));
            }
        }
    }
    assert forall|i: int|
        0 <= i < filters.len() && filters[i].eval(doc) is Err && (forall|j: int|
            0 <= j < i ==> filters[j].eval(doc) is Ok) implies disjunction(each) == filters[i].eval(
        doc,
    ) by {
        assert(each[i] is Err);
        assert forall|j: int| 0 <= j < i implies each[j] is Ok by {
            assert(filters[j].eval(doc) is Ok);
        }
    }
}

/// Structural equality does not depend on the side a document stands on.
pub proof fn lemma_json_equal_symmetric(a: Json, b: Json)
    requires
        json_equal(a, b),
    ensures
        json_equal(b, a),
    decreases a,
{
    match (a, b) {
        (Json::Array(x), Json::Array(y)) => {
            assert forall|i: int| 0 <= i < y.len() implies json_equal(#[trigger] y[i], x[i]) by {
                assert(json_equal(x[i], y[i]));
                lemma_json_equal_symmetric(x[i], y[i]);
            }
        },
        (Json::Object(x), Json::Object(y)) => {
            assert forall|k: Seq<char>| y.dom().contains(k) implies json_equal(
                #[trigger] y[k],
                x[k],
            ) by {
                assert(x.dom().contains(k));
                assert(json_equal(x[k], y[k]));
                lemma_json_equal_symmetric(x[k], y[k]);
            }
        },
        _ => {},
    }
}

/// Documents equal to one document are equal to each other.
pub proof fn lemma_json_equal_transitive(a: Json, b: Json, c: Json)
    requires
        json_equal(a, b),
        json_equal(b, c),
    ensures
        json_equal(a, c),
    decreases a,
{
    match (a, b, c) {
        (Json::Array(x), Json::Array(y), Json::Array(z)) => {
            assert forall|i: int| 0 <= i < x.len() implies json_equal(#[trigger] x[i], z[i]) by {
                assert(json_equal(x[i], y[i]));
                assert(json_equal(y[i], z[i]));
                lemma_json_equal_transitive(x[i], y[i], z[i]);
            }
        },
        (Json::Object(x), Json::Object(y), Json::Object(z)) => {
            assert forall|k: Seq<char>| x.dom().contains(k) implies json_equal(
                #[trigger] x[k],
                z[k],
            ) by {
                assert(y.dom().contains(k));
                assert(json_equal(x[k], y[k]));
                assert(json_equal(y[k], z[k]));
                lemma_json_equal_transitive(x[k], y[k], z[k]);
            }
        },
        _ => {},
    }
}

/// Two operands that are equal are equal to the same documents.
pub proof fn lemma_json_equal_operands(target: Json, a: Json, b: Json)
    requires
        json_equal(a, b),
    ensures
        json_equal(target, a) == json_equal(target, b),
{
    if json_equal(target, a) {
        lemma_json_equal_transitive(target, a, b);
    }
    if json_equal(target, b) {
        lemma_json_equal_symmetric(a, b);
        lemma_json_equal_transitive(target, b, a);
    }
}

/// Equal operators say the same of every value: the same verdict, or the
/// same error.
pub proof fn lemma_equal_operators_apply_alike(
    a: OperatorView,
    b: OperatorView,
    target: Json,
    doc: Json,
)
    requires
        same_operator(a, b),
    ensures
        a.apply(target, doc) == b.apply(target, doc),
    decreases a, 0int,
{
    match (a, b) {
        (OperatorView::Equals(x), OperatorView::Equals(y)) => {
            lemma_json_equal_operands(target, x, y);
        },
        (OperatorView::NotEqual(x), OperatorView::NotEqual(y)) => {
            lemma_json_equal_operands(target, x, y);
        },
        (OperatorView::ArrayContains(x), OperatorView::ArrayContains(y)) => {
            if let Json::Array(items) = target {
                assert forall|i: int| 0 <= i < items.len() implies json_equal(
                    #[trigger] items[i],
                    x,
                ) == json_equal(items[i], y) by {
                    lemma_json_equal_operands(items[i], x, y);
                }
                if includes(items, x) {
                    let i = choose|i: int| 0 <= i < items.len() && json_equal(#[trigger] items[i], x);
                    assert(json_equal(items[i], y));
                }
                if includes(items, y) {
                    let i = choose|i: int| 0 <= i < items.len() && json_equal(#[trigger] items[i], y);
                    assert(json_equal(items[i], x));
                }
            }
        },
        (OperatorView::And(x), OperatorView::And(y)) => {
            lemma_equal_lists_answer_alike(x, y, doc);
        },
        (OperatorView::Or(x), OperatorView::Or(y)) => {
            lemma_equal_lists_answer_alike(x, y, doc);
        },
        _ => {},
    }
}

/// Lists of filters that are equal filter by filter have the same outcomes.
pub proof fn lemma_equal_lists_answer_alike(a: Seq<FilterView>, b: Seq<FilterView>, doc: Json)
    requires
        a.len() == b.len(),
        forall|i: int| 0 <= i < a.len() ==> same_filter(#[trigger] a[i], b[i]),
    ensures
        outcomes(a, doc) == outcomes(b, doc),
    decreases a, 2int,
{
    assert forall|i: int| 0 <= i < a.len() implies #[trigger] outcomes(a, doc)[i] == outcomes(
        b,
        doc,
    )[i] by {
        assert(same_filter(a[i], b[i]));
        law_equal_filters_answer_alike(a[i], b[i], doc);
    }
    assert(outcomes(a, doc) =~= outcomes(b, doc));
}

/// Filters that compare equal answer alike on every document: the same
/// verdict, or the same error.  So a filter that has been written out and
/// read back, and compares equal to the one that was written, is the same
/// filter to every document.
pub proof fn law_equal_filters_answer_alike(a: FilterView, b: FilterView, doc: Json)
    requires
        same_filter(a, b),
    ensures
        a.eval(doc) == b.eval(doc),
    decreases a, 1int,
{
    match resolve(a.path, doc) {
        Ok(target) => {
            lemma_equal_operators_apply_alike(a.operator, b.operator, target, doc);
        },
        Err(_) => {},
    }
}

} // verus!
