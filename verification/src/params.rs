//! The query parameters of a request: an ordered mapping from parameter
//! names to values that becomes the query of a reference.

use crate::constants::{
    END_AT, EQUAL_TO, EXPORT, FORMAT, LIMIT_TO_FIRST, LIMIT_TO_LAST, ORDER_BY, SHALLOW, START_AT,
};
use crate::text::{
    decimal, lemma_lex_asymmetric, lemma_lex_irreflexive, lemma_lex_total, lemma_lex_transitive,
    lex_lt, render_bool, render_u64, same_text, text_lt, truth,
};
use crate::uri::{has_room, is_https, pair_weight, pairs_weight, url_with_pairs, Uri};
use crate::Firebase;
use vstd::prelude::*;

verus! {

/// A sequence of names with their values.
pub type Pairs = Seq<(Seq<char>, Seq<char>)>;

/// Whether the names stand in strictly rising lexical order: no name
/// occurs twice, and a smaller name stands before a larger one.
pub open spec fn sorted(pairs: Pairs) -> bool {
    forall|i: int, j: int|
        0 <= i < j < pairs.len() ==> lex_lt(#[trigger] pairs[i].0, #[trigger] pairs[j].0)
}

/// The pairs with `value` under `key`: in place of the value that the key
/// had, or as a new pair before the first larger name.
pub open spec fn insert_pair(pairs: Pairs, key: Seq<char>, value: Seq<char>) -> Pairs
    decreases pairs.len(),
{
    if pairs.len() == 0 {
        seq![(key, value)]
    } else if lex_lt(key, pairs[0].0) {
        seq![(key, value)] + pairs
    } else if key == pairs[0].0 {
        seq![(key, value)] + pairs.skip(1)
    } else {
        seq![pairs[0]] + insert_pair(pairs.skip(1), key, value)
    }
}

/// The URL with the pairs in its query: the URL itself where there is no
/// pair, else the pairs appended to the query that it has.
pub open spec fn with_params(uri: Seq<char>, pairs: Pairs) -> Seq<char> {
    if pairs.len() == 0 {
        uri
    } else {
        url_with_pairs(uri, pairs)
    }
}

/// One more pair, wherever it is put, adds its own weight.
pub proof fn lemma_weight_insert(pairs: Pairs, at: int, key: Seq<char>, value: Seq<char>)
    requires
        0 <= at <= pairs.len(),
    ensures
        pairs_weight(pairs.insert(at, (key, value))) == pairs_weight(pairs) + pair_weight(
            key,
            value,
        ),
    decreases pairs.len() - at,
{
    let longer = pairs.insert(at, (key, value));
    if at == pairs.len() {
        assert(longer.drop_last() =~= pairs);
    } else {
        assert(longer.drop_last() =~= pairs.drop_last().insert(at, (key, value)));
        assert(longer.last() == pairs.last());
        lemma_weight_insert(pairs.drop_last(), at, key, value);
    }
}

/// A pair in place of another changes the weight by the difference of the
/// two.
pub proof fn lemma_weight_update(pairs: Pairs, at: int, key: Seq<char>, value: Seq<char>)
    requires
        0 <= at < pairs.len(),
    ensures
        pairs_weight(pairs.update(at, (key, value))) + pair_weight(pairs[at].0, pairs[at].1)
            == pairs_weight(pairs) + pair_weight(key, value),
    decreases pairs.len() - at,
{
    let changed = pairs.update(at, (key, value));
    if at == pairs.len() - 1 {
        assert(changed.drop_last() =~= pairs.drop_last());
    } else {
        assert(changed.drop_last() =~= pairs.drop_last().update(at, (key, value)));
        assert(changed.last() == pairs.last());
        lemma_weight_update(pairs.drop_last(), at, key, value);
    }
}

/// Where a name goes among the pairs: the pairs with a pair of that name
/// are the pairs with the pair at the place `at`, in place of the pair
/// there where that has the same name (`found`), before it otherwise.
pub proof fn lemma_insert_pair_at(
    pairs: Pairs,
    key: Seq<char>,
    value: Seq<char>,
    at: int,
    found: bool,
)
    requires
        0 <= at <= pairs.len(),
        forall|j: int| 0 <= j < at ==> lex_lt(#[trigger] pairs[j].0, key),
        found ==> at < pairs.len() && pairs[at].0 == key,
        !found ==> at == pairs.len() || lex_lt(key, pairs[at].0),
    ensures
        insert_pair(pairs, key, value) == if found {
            pairs.update(at, (key, value))
        } else {
            pairs.insert(at, (key, value))
        },
    decreases at,
{
    lemma_lex_irreflexive(key);
    if at == 0 {
        if found {
            assert(seq![(key, value)] + pairs.skip(1) =~= pairs.update(0, (key, value)));
        } else if pairs.len() > 0 {
            assert(seq![(key, value)] + pairs =~= pairs.insert(0, (key, value)));
        } else {
            assert(seq![(key, value)] =~= pairs.insert(0, (key, value)));
        }
    } else {
        let rest = pairs.skip(1);
        assert(lex_lt(pairs[0].0, key));
        lemma_lex_asymmetric(pairs[0].0, key);
        assert forall|j: int| 0 <= j < at - 1 implies lex_lt(#[trigger] rest[j].0, key) by {
            assert(rest[j] == pairs[j + 1]);
        }
        if at < pairs.len() {
            assert(rest[at - 1] == pairs[at]);
        }
        lemma_insert_pair_at(rest, key, value, at - 1, found);
        if found {
            assert(seq![pairs[0]] + rest.update(at - 1, (key, value)) =~= pairs.update(
                at,
                (key, value),
            ));
        } else {
            assert(seq![pairs[0]] + rest.insert(at - 1, (key, value)) =~= pairs.insert(
                at,
                (key, value),
            ));
        }
    }
}

/// The pairs stay in order when a pair is put where its name belongs.
pub proof fn lemma_insert_pair_sorted(pairs: Pairs, key: Seq<char>, value: Seq<char>)
    requires
        sorted(pairs),
    ensures
        sorted(insert_pair(pairs, key, value)),
    decreases pairs.len(),
{
    let after = insert_pair(pairs, key, value);
    if pairs.len() > 0 {
        let rest = pairs.skip(1);
        assert(sorted(rest)) by {
            assert forall|i: int, j: int| 0 <= i < j < rest.len() implies lex_lt(
                #[trigger] rest[i].0,
                #[trigger] rest[j].0,
            ) by {
                assert(rest[i] == pairs[i + 1]);
                assert(rest[j] == pairs[j + 1]);
            }
        }
        if lex_lt(key, pairs[0].0) {
            assert forall|i: int, j: int| 0 <= i < j < after.len() implies lex_lt(
                #[trigger] after[i].0,
                #[trigger] after[j].0,
            ) by {
                assert(after[j] == pairs[j - 1]);
                if i == 0 {
                    if j > 1 {
                        lemma_lex_transitive(key, pairs[0].0, pairs[j - 1].0);
                    }
                } else {
                    assert(after[i] == pairs[i - 1]);
                }
            }
        } else if key == pairs[0].0 {
            assert forall|i: int, j: int| 0 <= i < j < after.len() implies lex_lt(
                #[trigger] after[i].0,
                #[trigger] after[j].0,
            ) by {
                assert(after[j] == pairs[j]);
                if i > 0 {
                    assert(after[i] == pairs[i]);
                }
            }
        } else {
            lemma_lex_total(key, pairs[0].0);
            lemma_insert_pair_sorted(rest, key, value);
            let tail = insert_pair(rest, key, value);
            lemma_insert_pair_names(rest, key, value);
            assert forall|i: int, j: int| 0 <= i < j < after.len() implies lex_lt(
                #[trigger] after[i].0,
                #[trigger] after[j].0,
            ) by {
                assert(after[j] == tail[j - 1]);
                if i == 0 {
                    if tail[j - 1].0 != key {
                        let from = choose|k: int| 0 <= k < rest.len() && rest[k].0 == tail[j - 1].0;
                        assert(rest[from] == pairs[from + 1]);
                    }
                } else {
                    assert(after[i] == tail[i - 1]);
                }
            }
        }
    }
}

/// Every name among the pairs with one more pair is the new name or one of
/// the names that were there.
proof fn lemma_insert_pair_names(pairs: Pairs, key: Seq<char>, value: Seq<char>)
    ensures
        forall|j: int|
            0 <= j < insert_pair(pairs, key, value).len() ==> {
                let name = #[trigger] insert_pair(pairs, key, value)[j].0;
                name == key || exists|k: int| 0 <= k < pairs.len() && pairs[k].0 == name
            },
    decreases pairs.len(),
{
    let after = insert_pair(pairs, key, value);
    if pairs.len() > 0 {
        let rest = pairs.skip(1);
        if lex_lt(key, pairs[0].0) {
            assert forall|j: int| 0 <= j < after.len() implies {
                let name = #[trigger] after[j].0;
                name == key || exists|k: int| 0 <= k < pairs.len() && pairs[k].0 == name
            } by {
                if j > 0 {
                    assert(after[j] == pairs[j - 1]);
                }
            }
        } else if key == pairs[0].0 {
            assert forall|j: int| 0 <= j < after.len() implies {
                let name = #[trigger] after[j].0;
                name == key || exists|k: int| 0 <= k < pairs.len() && pairs[k].0 == name
            } by {
                if j > 0 {
                    assert(after[j] == pairs[j]);
                }
            }
        } else {
            lemma_insert_pair_names(rest, key, value);
            let tail = insert_pair(rest, key, value);
            assert forall|j: int| 0 <= j < after.len() implies {
                let name = #[trigger] after[j].0;
                name == key || exists|k: int| 0 <= k < pairs.len() && pairs[k].0 == name
            } by {
                if j == 0 {
                    assert(after[0] == pairs[0]);
                } else {
                    assert(after[j] == tail[j - 1]);
                    let name = tail[j - 1].0;
                    if name != key {
                        let k = choose|k: int| 0 <= k < rest.len() && rest[k].0 == name;
                        assert(pairs[k + 1] == rest[k]);
                    }
                }
            }
        }
    }
}

/// The place of a name among pairs in lexical order: the index of the
/// first pair whose name is not smaller, and whether that pair has the
/// name.
fn locate(pairs: &Vec<(String, String)>, key: &str) -> (r: (usize, bool))
    ensures
        r.0 <= pairs.len(),
        forall|j: int| 0 <= j < r.0 ==> lex_lt(#[trigger] pairs.deep_view()[j].0, key@),
        r.1 ==> r.0 < pairs.len() && pairs.deep_view()[r.0 as int].0 == key@,
        !r.1 ==> r.0 == pairs.len() || lex_lt(key@, pairs.deep_view()[r.0 as int].0),
{
    let ghost view = pairs.deep_view();
    let n = pairs.len();
    let mut i: usize = 0;
    while i < n
        invariant
            n == pairs.len(),
            view == pairs.deep_view(),
            i <= n,
            forall|j: int| 0 <= j < i ==> lex_lt(#[trigger] view[j].0, key@),
        decreases n - i,
    {
        let name = pairs[i].0.as_str();
        assert(name@ == view[i as int].0);
        if same_text(key, name) {
            return (i, true);
        }
        if text_lt(key, name) {
            return (i, false);
        }
        proof {
            lemma_lex_total(key@, name@);
        }
        i += 1;
    }
    (i, false)
}

/// The weight of a pair of the given lengths.
fn weigh(key: &str, value: &str) -> (r: u128)
    ensures
        r == pair_weight(key@, value@),
        r <= 24 * 0xFFFF_FFFF_FFFF_FFFF + 2,
{
    12 * (key.unicode_len() as u128) + 12 * (value.unicode_len() as u128) + 2
}

/// The parameters gathered for one reference.
#[derive(Debug)]
pub struct Params {
    uri: Uri,
    pairs: Vec<(String, String)>,
    weight: u64,
}

/// The mathematical content of a [`Params`]: the URL that the parameters
/// are for, and the pairs in the order in which they are written out.
pub struct ParamsView {
    pub uri: Seq<char>,
    pub pairs: Pairs,
}

impl View for Params {
    type V = ParamsView;

    closed spec fn view(&self) -> ParamsView {
        ParamsView { uri: self.uri@, pairs: self.pairs.deep_view() }
    }
}

impl Params {
    #[verifier::type_invariant]
    spec fn is_valid(self) -> bool {
        &&& is_https(self.uri@)
        &&& sorted(self.pairs.deep_view())
        &&& self.weight == pairs_weight(self.pairs.deep_view())
        &&& self.pairs.len() > 0 ==> has_room(
            self.uri@.len(),
            pairs_weight(self.pairs.deep_view()),
        )
    }

    /// No parameters yet, for the URL of a reference.
    pub fn new(uri: Uri) -> (r: Self)
        requires
            is_https(uri@),
        ensures
            r@ == (ParamsView { uri: uri@, pairs: Seq::empty() }),
    {
        let pairs: Vec<(String, String)> = Vec::new();
        assert(pairs.deep_view() =~= Seq::empty());
        Self { uri, pairs, weight: 0 }
    }

    /// Whether the URL has room for the pair besides those it has.
    pub open spec fn can_add(&self, key: Seq<char>, value: Seq<char>) -> bool {
        has_room(self@.uri.len(), pairs_weight(insert_pair(self@.pairs, key, value)))
    }

    /// The weight of the pairs with `value` under `key`.
    fn weight_with(&self, key: &str, value: &str) -> (r: u128)
        ensures
            r == pairs_weight(insert_pair(self@.pairs, key@, value@)),
            r <= 25 * 0xFFFF_FFFF_FFFF_FFFF + 2,
    {
        proof {
            use_type_invariant(self);
        }
        let (at, found) = locate(&self.pairs, key);
        let ghost pairs = self.pairs.deep_view();
        proof {
            lemma_insert_pair_at(pairs, key@, value@, at as int, found);
        }
        let added = weigh(key, value);
        if found {
            let old_value = self.pairs[at].1.as_str();
            let taken = weigh(self.pairs[at].0.as_str(), old_value);
            proof {
                assert(pairs[at as int].1 == old_value@);
                lemma_weight_update(pairs, at as int, key@, value@);
            }
            self.weight as u128 + added - taken
        } else {
            proof {
                lemma_weight_insert(pairs, at as int, key@, value@);
            }
            self.weight as u128 + added
        }
    }

    /// Tests whether the URL has room for the pair besides those it has.
    pub fn has_room_for(&self, key: &str, value: &str) -> (r: bool)
        ensures
            r == self.can_add(key@, value@),
    {
        let length = self.uri.as_str().unicode_len();
        let weight = self.weight_with(key, value);
        4 * (length as u128) + weight + 8 <= 0xFFFF_FFFF
    }

    /// Puts `value` under `key`: in place of the value that the key had, or
    /// as a new pair where the key belongs in lexical order.
    pub fn add_param(&mut self, key: &str, value: &str) -> (r: &mut Self)
        requires
            old(self).can_add(key@, value@),
        ensures
            final(self)@ == final(r)@,
            r@ == (ParamsView {
                pairs: insert_pair(old(self)@.pairs, key@, value@),
                ..old(self)@
            }),
            sorted(r@.pairs),
    {
        proof {
            use_type_invariant(&*self);
        }
        let weight = self.weight_with(key, value);
        let (at, found) = locate(&self.pairs, key);
        let mut taken = Params::new(self.uri.clone());
        std::mem::swap(self, &mut taken);
        let Params { uri, mut pairs, weight: _ } = taken;
        let ghost before = pairs.deep_view();
        let ghost after = insert_pair(before, key@, value@);
        proof {
            lemma_insert_pair_at(before, key@, value@, at as int, found);
            lemma_insert_pair_sorted(before, key@, value@);
        }
        let pair = (key.to_owned(), value.to_owned());
        if found {
            pairs.set(at, pair);
        } else {
            pairs.insert(at, pair);
        }
        assert(pairs.deep_view() =~= after);
        *self = Params { uri, pairs, weight: weight as u64 };
        self
    }

    /// Orders the result by the child key `key`.
    pub fn order_by(&mut self, key: &str) -> (r: &mut Params)
        requires
            old(self).can_add(ORDER_BY@, key@),
        ensures
            final(self)@ == final(r)@,
            r@ == (ParamsView {
                pairs: insert_pair(old(self)@.pairs, ORDER_BY@, key@),
                ..old(self)@
            }),
    {
        self.add_param(ORDER_BY, key)
    }

    /// Limits the result to its first `count` children.
    pub fn limit_to_first(&mut self, count: u32) -> (r: &mut Params)
        requires
            old(self).can_add(LIMIT_TO_FIRST@, decimal(count as nat)),
        ensures
            final(self)@ == final(r)@,
            r@ == (ParamsView {
                pairs: insert_pair(old(self)@.pairs, LIMIT_TO_FIRST@, decimal(count as nat)),
                ..old(self)@
            }),
    {
        let value = render_u64(count as u64);
        self.add_param(LIMIT_TO_FIRST, value.as_str())
    }

    /// Limits the result to its last `count` children.
    pub fn limit_to_last(&mut self, count: u32) -> (r: &mut Params)
        requires
            old(self).can_add(LIMIT_TO_LAST@, decimal(count as nat)),
        ensures
            final(self)@ == final(r)@,
            r@ == (ParamsView {
                pairs: insert_pair(old(self)@.pairs, LIMIT_TO_LAST@, decimal(count as nat)),
                ..old(self)@
            }),
    {
        let value = render_u64(count as u64);
        self.add_param(LIMIT_TO_LAST, value.as_str())
    }

    /// Starts the result at `index`.
    pub fn start_at(&mut self, index: u32) -> (r: &mut Params)
        requires
            old(self).can_add(START_AT@, decimal(index as nat)),
        ensures
            final(self)@ == final(r)@,
            r@ == (ParamsView {
                pairs: insert_pair(old(self)@.pairs, START_AT@, decimal(index as nat)),
                ..old(self)@
            }),
    {
        let value = render_u64(index as u64);
        self.add_param(START_AT, value.as_str())
    }

    /// Ends the result at `index`.
    pub fn end_at(&mut self, index: u32) -> (r: &mut Params)
        requires
            old(self).can_add(END_AT@, decimal(index as nat)),
        ensures
            final(self)@ == final(r)@,
            r@ == (ParamsView {
                pairs: insert_pair(old(self)@.pairs, END_AT@, decimal(index as nat)),
                ..old(self)@
            }),
    {
        let value = render_u64(index as u64);
        self.add_param(END_AT, value.as_str())
    }

    /// Keeps the children that are equal to `value`.
    pub fn equal_to(&mut self, value: u32) -> (r: &mut Params)
        requires
            old(self).can_add(EQUAL_TO@, decimal(value as nat)),
        ensures
            final(self)@ == final(r)@,
            r@ == (ParamsView {
                pairs: insert_pair(old(self)@.pairs, EQUAL_TO@, decimal(value as nat)),
                ..old(self)@
            }),
    {
        let text = render_u64(value as u64);
        self.add_param(EQUAL_TO, text.as_str())
    }

    /// Asks for the keys only (`true`) or for the whole data (`false`).
    pub fn shallow(&mut self, flag: bool) -> (r: &mut Params)
        requires
            old(self).can_add(SHALLOW@, truth(flag)),
        ensures
            final(self)@ == final(r)@,
            r@ == (ParamsView {
                pairs: insert_pair(old(self)@.pairs, SHALLOW@, truth(flag)),
                ..old(self)@
            }),
    {
        let value = render_bool(flag);
        self.add_param(SHALLOW, value.as_str())
    }

    /// Asks for the export format.
    pub fn format(&mut self) -> (r: &mut Params)
        requires
            old(self).can_add(FORMAT@, EXPORT@),
        ensures
            final(self)@ == final(r)@,
            r@ == (ParamsView {
                pairs: insert_pair(old(self)@.pairs, FORMAT@, EXPORT@),
                ..old(self)@
            }),
    {
        self.add_param(FORMAT, EXPORT)
    }

    /// The reference with the parameters in its query, in the lexical
    /// order of their names.
    pub fn finish(&self) -> (r: Firebase)
        ensures
            r@ == with_params(self@.uri, self@.pairs),
    {
        proof {
            use_type_invariant(self);
        }
        let mut uri = self.uri.clone();
        if self.pairs.len() > 0 {
            uri.extend_pairs(&self.pairs);
        }
        Firebase::from_uri(uri)
    }
}

/// The order in which two parameters with different names are added does
/// not show in the pairs, and so not in the reference that is made of them.
pub proof fn lemma_insert_pair_commutes(
    pairs: Pairs,
    first_key: Seq<char>,
    first_value: Seq<char>,
    second_key: Seq<char>,
    second_value: Seq<char>,
)
    requires
        first_key != second_key,
    ensures
        insert_pair(insert_pair(pairs, first_key, first_value), second_key, second_value)
            == insert_pair(insert_pair(pairs, second_key, second_value), first_key, first_value),
        forall|uri: Seq<char>|
            with_params(
                uri,
                insert_pair(
                    insert_pair(pairs, first_key, first_value),
                    second_key,
                    second_value,
                ),
            ) == #[trigger] with_params(
                uri,
                insert_pair(
                    insert_pair(pairs, second_key, second_value),
                    first_key,
                    first_value,
                ),
            ),
    decreases pairs.len(),
{
    lemma_lex_total(first_key, second_key);
    lemma_lex_irreflexive(first_key);
    lemma_lex_irreflexive(second_key);
    if lex_lt(first_key, second_key) {
        lemma_lex_asymmetric(first_key, second_key);
    } else {
        lemma_lex_asymmetric(second_key, first_key);
    }
    if pairs.len() > 0 {
        let head = pairs[0].0;
        let rest = pairs.skip(1);
        if lex_lt(first_key, second_key) && lex_lt(second_key, head) {
            lemma_lex_transitive(first_key, second_key, head);
        }
        if lex_lt(second_key, first_key) && lex_lt(first_key, head) {
            lemma_lex_transitive(second_key, first_key, head);
        }
        if lex_lt(first_key, head) {
            lemma_lex_asymmetric(first_key, head);
        }
        if lex_lt(second_key, head) {
            lemma_lex_asymmetric(second_key, head);
        }
        lemma_insert_pair_commutes(rest, first_key, first_value, second_key, second_value);
        lemma_insert_pair_step(pairs, first_key, first_value, second_key, second_value);
        lemma_insert_pair_step(pairs, second_key, second_value, first_key, first_value);
        let first = (first_key, first_value);
        let second = (second_key, second_value);
        assert(seq![first] + (seq![second] + pairs) =~= seq![first, second] + pairs);
        assert(seq![second] + (seq![first] + pairs) =~= seq![second, first] + pairs);
        assert(seq![first] + (seq![second] + rest) =~= seq![first, second] + rest);
        assert(seq![second] + (seq![first] + rest) =~= seq![second, first] + rest);
        assert(seq![first] + (seq![pairs[0]] + insert_pair(rest, second_key, second_value))
            =~= seq![first, pairs[0]] + insert_pair(rest, second_key, second_value));
        assert(seq![second] + (seq![pairs[0]] + insert_pair(rest, first_key, first_value))
            =~= seq![second, pairs[0]] + insert_pair(rest, first_key, first_value));
    } else {
        let first = (first_key, first_value);
        let second = (second_key, second_value);
        reveal_with_fuel(insert_pair, 2);
        assert(seq![first].skip(1) =~= Seq::empty());
        assert(seq![second].skip(1) =~= Seq::empty());
        assert(insert_pair(seq![first], second_key, second_value) =~= if lex_lt(
            second_key,
            first_key,
        ) {
            seq![second, first]
        } else {
            seq![first, second]
        });
        assert(insert_pair(seq![second], first_key, first_value) =~= if lex_lt(
            first_key,
            second_key,
        ) {
            seq![first, second]
        } else {
            seq![second, first]
        });
    }
}

/// Adding `second_key` after `first_key`, unfolded by where the two names
/// stand with respect to the first pair.
proof fn lemma_insert_pair_step(
    pairs: Pairs,
    first_key: Seq<char>,
    first_value: Seq<char>,
    second_key: Seq<char>,
    second_value: Seq<char>,
)
    requires
        pairs.len() > 0,
        first_key != second_key,
    ensures
        insert_pair(insert_pair(pairs, first_key, first_value), second_key, second_value) == {
            let head = pairs[0];
            let rest = pairs.skip(1);
            let first = (first_key, first_value);
            let second = (second_key, second_value);
            if lex_lt(first_key, head.0) {
                if lex_lt(second_key, first_key) {
                    seq![second, first] + pairs
                } else {
                    seq![first] + insert_pair(pairs, second_key, second_value)
                }
            } else if first_key == head.0 {
                if lex_lt(second_key, first_key) {
                    seq![second, first] + rest
                } else {
                    seq![first] + insert_pair(rest, second_key, second_value)
                }
            } else {
                if lex_lt(second_key, head.0) {
                    seq![second, head] + insert_pair(rest, first_key, first_value)
                } else if second_key == head.0 {
                    seq![second] + insert_pair(rest, first_key, first_value)
                } else {
                    seq![head] + insert_pair(
                        insert_pair(rest, first_key, first_value),
                        second_key,
                        second_value,
                    )
                }
            }
        },
{
    let head = pairs[0];
    let rest = pairs.skip(1);
    let first = (first_key, first_value);
    let second = (second_key, second_value);
    let once = insert_pair(pairs, first_key, first_value);
    if lex_lt(first_key, head.0) {
        assert(once == seq![first] + pairs);
        assert(once[0] == first);
        assert(once.skip(1) =~= pairs);
        if lex_lt(second_key, first_key) {
            assert(seq![second] + once =~= seq![second, first] + pairs);
        }
    } else if first_key == head.0 {
        assert(once == seq![first] + rest);
        assert(once[0] == first);
        assert(once.skip(1) =~= rest);
        if lex_lt(second_key, first_key) {
            assert(seq![second] + once =~= seq![second, first] + rest);
        }
    } else {
        let tail = insert_pair(rest, first_key, first_value);
        assert(once == seq![head] + tail);
        assert(once[0] == head);
        assert(once.skip(1) =~= tail);
        if lex_lt(second_key, head.0) {
            assert(seq![second] + once =~= seq![second, head] + tail);
        } else if second_key == head.0 {
        }
    }
}

} // verus!
