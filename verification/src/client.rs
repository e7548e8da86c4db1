//! The polling client's decisions: which lectures are new, which remembered
//! ones have expired, how the protected call recovers exactly once from a
//! rejected session, and what the response envelope means.  The requests
//! themselves are performed by the calling workflow, which feeds their
//! outcomes back in.

use vstd::prelude::*;
use vstd::seq_lib::group_filter_ensures;
use vstd::string::*;

verus! {

broadcast use group_filter_ensures;

/// A page's latest notice: its title and the address it links to.
#[derive(Clone, Debug)]
pub struct Notice {
    pub title: String,
    pub url: String,
}

/// One polled lecture record.  `id` is the identity key: two records with
/// the same `id` stand for the same lecture, whatever their other fields
/// say.  `time` is free text that may start with a `year-month-day` date.
#[derive(Clone, Debug)]
pub struct Lecture {
    pub title: String,
    pub level: String,
    pub time: String,
    pub id: String,
    pub speaker: String,
}

impl PartialEq for Lecture {
    /// Identity is decided by the `id` field alone.
    fn eq(&self, other: &Self) -> (r: bool) {
        self.id == other.id
    }
}

impl vstd::std_specs::cmp::PartialEqSpecImpl for Lecture {
    open spec fn obeys_eq_spec() -> bool {
        true
    }

    open spec fn eq_spec(&self, other: &Self) -> bool {
        self.id@ == other.id@
    }
}

impl Lecture {
    /// A field-for-field copy.
    pub fn duplicate(&self) -> (r: Lecture)
        ensures
            r == *self,
    {
        Lecture {
            title: self.title.clone(),
            level: self.level.clone(),
            time: self.time.clone(),
            id: self.id.clone(),
            speaker: self.speaker.clone(),
        }
    }
}

/// What can go wrong between the poller and the protected API.
#[derive(Debug)]
pub enum Error {
    /// The network or HTTP layer failed; carries the transport's own words.
    Transport { message: String },
    /// The retried protected call still answered with a failing status.
    HttpStatus { code: u16 },
    /// A page held no element for the notice selector.
    ElementNotFound { selector: String },
    /// The response body did not decode as the expected envelope; keeps the
    /// raw text for diagnosis.
    Decode { message: String, text: String },
    /// The envelope decoded but carried a non-success application code.
    Api { message: String },
    /// Logging in failed.
    Login { error: crate::login::Error },
}

/// The day count of a date text, if it parses as `year-month-day`.
pub uninterp spec fn date_ordinal_of(date_text: Seq<char>) -> Option<int>;

/// The date a lecture's free-text `time` field begins with, as a day count:
/// the text before the first space, read as `year-month-day`.
pub open spec fn lecture_date_of(time: Seq<char>) -> Option<int> {
    date_ordinal_of(crate::text::split_chars(time, ' ')[0])
}

/// Relies on chrono::NaiveDate::parse_from_str with the `%Y-%m-%d` format
/// and on chrono::Datelike::num_days_from_ce for the day count.  The result
/// depends on the text alone.
#[verifier::external_body]
fn parse_date_ordinal(date_text: &str) -> (r: Option<i64>)
    ensures
        match r {
            Some(d) => date_ordinal_of(date_text@) == Some(d as int),
            None => date_ordinal_of(date_text@) is None,
        },
{
    match chrono::NaiveDate::parse_from_str(date_text, "%Y-%m-%d") {
        Ok(d) => Some(chrono::Datelike::num_days_from_ce(&d) as i64),
        Err(_) => None,
    }
}

/// Relies on chrono::Local::now and DateTime::date_naive: the machine's
/// current civil date, in the same day count that the lecture dates use.
/// The result depends on the clock, so nothing is stated of it.
#[verifier::external_body]
pub fn today_ordinal() -> (r: i64) {
    chrono::Datelike::num_days_from_ce(&chrono::Local::now().date_naive()) as i64
}

/// The lecture's expiry date as a day count, as `lecture_date_of` describes
/// it: the text before the first space of `time` is cut off in verified code
/// and handed to the date parser.
pub fn get_lecture_date(lecture: &Lecture) -> (r: Option<i64>)
    ensures
        match r {
            Some(d) => lecture_date_of(lecture.time@) == Some(d as int),
            None => lecture_date_of(lecture.time@) is None,
        },
{
    let pieces = crate::text::split_str(lecture.time.as_str(), ' ');
    proof {
        assert(crate::text::split_chars(lecture.time@, ' ').len() >= 1);
        assert(pieces.deep_view()[0] == pieces@[0]@);
    }
    parse_date_ordinal(pieces[0].as_str())
}

/// Whether the lecture's date has passed: true only for a record whose
/// `time` starts with a parseable date strictly before `today`.  A record
/// without a parseable date never expires.
pub open spec fn expired(l: Lecture, today: int) -> bool {
    match lecture_date_of(l.time@) {
        Some(d) => d < today,
        None => false,
    }
}

/// Whether some record in `s` carries the identity key `id`.
pub open spec fn has_id(s: Seq<Lecture>, id: Seq<char>) -> bool {
    exists|i: int| 0 <= i < s.len() && s[i].id@ == id
}

/// Whether every identity key occurs at most once in `s`.
pub open spec fn unique_ids(s: Seq<Lecture>) -> bool {
    forall|i: int, j: int|
        0 <= i < s.len() && 0 <= j < s.len() && s[i].id@ == s[j].id@ ==> i == j
}

/// Drops the records whose date has passed, keeping order; records without
/// a parseable date are kept whatever their age.
#[verifier::loop_isolation(false)]
pub fn remove_outdated_lectures(old_lectures: Vec<Lecture>, today: i64) -> (kept: Vec<Lecture>)
    ensures
        kept@ == old_lectures@.filter(|l: Lecture| !expired(l, today as int)),
{
    let ghost pred = |l: Lecture| !expired(l, today as int);
    let mut kept: Vec<Lecture> = Vec::new();
    let mut i: usize = 0;
    proof {
        assert(old_lectures@.subrange(0, 0) =~= Seq::<Lecture>::empty());
        assert(Seq::<Lecture>::empty().filter(pred) =~= Seq::<Lecture>::empty()) by {
            reveal(Seq::filter);
        }
    }
    while i < old_lectures.len()
        invariant
            i <= old_lectures@.len(),
            kept@ == old_lectures@.subrange(0, i as int).filter(pred),
        decreases old_lectures@.len() - i,
    {
        let keep = match get_lecture_date(&old_lectures[i]) {
            Some(d) => d >= today,
            None => true,
        };
        proof {
            lemma_filter_one(old_lectures@.subrange(0, i as int), pred, old_lectures@[i as int]);
            assert(old_lectures@.subrange(0, i + 1) =~= old_lectures@.subrange(0, i as int)
                + seq![old_lectures@[i as int]]);
        }
        if keep {
            kept.push(old_lectures[i].duplicate());
        }
        i += 1;
    }
    proof {
        assert(old_lectures@.subrange(0, old_lectures@.len() as int) =~= old_lectures@);
    }
    kept
}

/// Filtering a sequence extended by one element keeps the element exactly
/// when the predicate holds of it.
proof fn lemma_filter_one(s: Seq<Lecture>, pred: spec_fn(Lecture) -> bool, x: Lecture)
    ensures
        (s + seq![x]).filter(pred) == if pred(x) {
            s.filter(pred).push(x)
        } else {
            s.filter(pred)
        },
{
    reveal(Seq::filter);
    assert((s + seq![x]).drop_last() =~= s);
    assert((s + seq![x]).last() == x);
}

/// The fetched records that are new against `acc`, in fetched order: a
/// record whose identity key is absent from `acc` and from the earlier new
/// records is taken, every other record is skipped.
pub open spec fn new_lectures_spec(acc: Seq<Lecture>, fetched: Seq<Lecture>) -> Seq<Lecture>
    decreases fetched.len(),
{
    if fetched.len() == 0 {
        Seq::empty()
    } else {
        let head = fetched[0];
        let rest = fetched.drop_first();
        if has_id(acc, head.id@) {
            new_lectures_spec(acc, rest)
        } else {
            seq![head] + new_lectures_spec(acc.push(head), rest)
        }
    }
}

/// What one poll found: the records not seen before, and the full remembered
/// set going forward.
pub struct Delta {
    pub new: Vec<Lecture>,
    pub merged: Vec<Lecture>,
}

/// Says whether some record of `lectures` shares `lecture`'s identity key.
#[verifier::loop_isolation(false)]
pub fn contains_id(lectures: &Vec<Lecture>, lecture: &Lecture) -> (r: bool)
    ensures
        r == has_id(lectures@, lecture.id@),
{
    let mut j: usize = 0;
    while j < lectures.len()
        invariant
            j <= lectures@.len(),
            forall|p: int| 0 <= p < j ==> lectures@[p].id@ != lecture.id@,
        decreases lectures@.len() - j,
    {
        if lectures[j] == *lecture {
            return true;
        }
        j += 1;
    }
    false
}

/// Compares the fetched records against the remembered set: expired
/// remembered records are dropped first, then each fetched record whose
/// identity key is not yet present is appended to both the new list and the
/// merged set, in fetched order; records already present are skipped.
#[verifier::loop_isolation(false)]
pub fn diff_lectures(remembered: Vec<Lecture>, fetched: Vec<Lecture>, today: i64) -> (delta: Delta)
    ensures
        ({
            let kept = remembered@.filter(|l: Lecture| !expired(l, today as int));
            &&& delta.new@ == new_lectures_spec(kept, fetched@)
            &&& delta.merged@ == kept + new_lectures_spec(kept, fetched@)
        }),
{
    let ghost pred = |l: Lecture| !expired(l, today as int);
    let mut merged = remove_outdated_lectures(remembered, today);
    let ghost kept = merged@;
    let mut new_items: Vec<Lecture> = Vec::new();
    let n = fetched.len();
    let mut i: usize = 0;
    proof {
        assert(fetched@.subrange(0, n as int) =~= fetched@);
    }
    while i < n
        invariant
            i <= n,
            merged@ == kept + new_items@,
            new_lectures_spec(kept, fetched@) == new_items@ + new_lectures_spec(
                merged@,
                fetched@.subrange(i as int, n as int),
            ),
        decreases n - i,
    {
        let ghost suffix = fetched@.subrange(i as int, n as int);
        proof {
            assert(suffix[0] == fetched@[i as int]);
            assert(suffix.drop_first() =~= fetched@.subrange(i + 1, n as int));
        }
        if !contains_id(&merged, &fetched[i]) {
            let lecture = fetched[i].duplicate();
            merged.push(lecture.duplicate());
            new_items.push(lecture);
            proof {
                assert(merged@ =~= kept + new_items@);
                assert(new_items@.drop_last() + seq![fetched@[i as int]] + new_lectures_spec(
                    merged@,
                    fetched@.subrange(i + 1, n as int),
                ) =~= new_items@ + new_lectures_spec(
                    merged@,
                    fetched@.subrange(i + 1, n as int),
                ));
            }
        }
        i += 1;
    }
    proof {
        assert(fetched@.subrange(n as int, n as int).len() == 0);
        assert(new_items@ + Seq::<Lecture>::empty() =~= new_items@);
    }
    Delta { new: new_items, merged }
}

/// Filtering keeps identity keys unique and introduces none.
proof fn lemma_filter_ids(s: Seq<Lecture>, pred: spec_fn(Lecture) -> bool)
    requires
        unique_ids(s),
    ensures
        unique_ids(s.filter(pred)),
        forall|id: Seq<char>| has_id(s.filter(pred), id) ==> has_id(s, id),
    decreases s.len(),
{
    reveal(Seq::filter);
    if s.len() > 0 {
        let dl = s.drop_last();
        assert(unique_ids(dl)) by {
            assert(forall|i: int| 0 <= i < dl.len() ==> dl[i] == s[i]);
        }
        lemma_filter_ids(dl, pred);
        assert forall|id: Seq<char>| has_id(s.filter(pred), id) implies has_id(s, id) by {
            if pred(s.last()) {
                if has_id(dl.filter(pred), id) {
                    assert(has_id(dl, id));
                    let w = choose|i: int| 0 <= i < dl.len() && dl[i].id@ == id;
                    assert(s[w].id@ == id);
                } else {
                    assert(s.filter(pred) == dl.filter(pred).push(s.last()));
                    let w = choose|i: int|
                        0 <= i < s.filter(pred).len() && s.filter(pred)[i].id@ == id;
                    if w < s.filter(pred).len() - 1 {
                        assert(dl.filter(pred)[w].id@ == id);
                    } else {
                        assert(s.last().id@ == id);
                        assert(s[s.len() - 1].id@ == id);
                    }
                }
            } else {
                assert(s.filter(pred) == dl.filter(pred));
                assert(has_id(dl, id));
                let w = choose|i: int| 0 <= i < dl.len() && dl[i].id@ == id;
                assert(s[w].id@ == id);
            }
        }
        if pred(s.last()) {
            assert(unique_ids(s.filter(pred))) by {
                let f = dl.filter(pred).push(s.last());
                assert(s.filter(pred) == f);
                assert(!has_id(dl, s.last().id@)) by {
                    if has_id(dl, s.last().id@) {
                        let w = choose|i: int| 0 <= i < dl.len() && dl[i].id@ == s.last().id@;
                        assert(s[w].id@ == s[s.len() - 1].id@);
                    }
                }
                assert forall|i: int, j: int|
                    0 <= i < f.len() && 0 <= j < f.len() && f[i].id@ == f[j].id@ implies i == j by {
                    if i < f.len() - 1 && j < f.len() - 1 {
                        assert(dl.filter(pred)[i] == f[i]);
                        assert(dl.filter(pred)[j] == f[j]);
                    } else if i < f.len() - 1 {
                        assert(dl.filter(pred)[i] == f[i]);
                        assert(has_id(dl.filter(pred), f[i].id@));
                        assert(has_id(dl, s.last().id@));
                    } else if j < f.len() - 1 {
                        assert(dl.filter(pred)[j] == f[j]);
                        assert(has_id(dl.filter(pred), f[j].id@));
                        assert(has_id(dl, s.last().id@));
                    }
                }
            }
        }
    }
}

/// The accumulated set stays unique through `new_lectures_spec`.
proof fn lemma_new_spec_unique(acc: Seq<Lecture>, fetched: Seq<Lecture>)
    requires
        unique_ids(acc),
    ensures
        unique_ids(acc + new_lectures_spec(acc, fetched)),
    decreases fetched.len(),
{
    if fetched.len() == 0 {
        assert(acc + new_lectures_spec(acc, fetched) =~= acc);
    } else {
        let head = fetched[0];
        let rest = fetched.drop_first();
        if has_id(acc, head.id@) {
            lemma_new_spec_unique(acc, rest);
        } else {
            let acc2 = acc.push(head);
            assert(unique_ids(acc2)) by {
                assert(forall|i: int| 0 <= i < acc.len() ==> acc2[i] == acc[i]);
                assert(acc2[acc.len() as int] == head);
                assert(!has_id(acc, head.id@));
            }
            lemma_new_spec_unique(acc2, rest);
            assert(acc + new_lectures_spec(acc, fetched) =~= acc2 + new_lectures_spec(acc2, rest));
        }
    }
}

/// Every record that `new_lectures_spec` takes is one of the fetched
/// records.
proof fn lemma_new_spec_from_fetched(acc: Seq<Lecture>, fetched: Seq<Lecture>)
    ensures
        forall|i: int|
            0 <= i < new_lectures_spec(acc, fetched).len() ==> fetched.contains(
                #[trigger] new_lectures_spec(acc, fetched)[i],
            ),
    decreases fetched.len(),
{
    if fetched.len() > 0 {
        let head = fetched[0];
        let rest = fetched.drop_first();
        if has_id(acc, head.id@) {
            lemma_new_spec_from_fetched(acc, rest);
            assert forall|i: int| 0 <= i < new_lectures_spec(acc, fetched).len() implies fetched
                .contains(#[trigger] new_lectures_spec(acc, fetched)[i]) by {
                assert(rest.contains(new_lectures_spec(acc, rest)[i]));
                let w = choose|j: int| 0 <= j < rest.len() && rest[j] == new_lectures_spec(
                    acc,
                    rest,
                )[i];
                assert(fetched[w + 1] == rest[w]);
            }
        } else {
            let acc2 = acc.push(head);
            lemma_new_spec_from_fetched(acc2, rest);
            assert forall|i: int| 0 <= i < new_lectures_spec(acc, fetched).len() implies fetched
                .contains(#[trigger] new_lectures_spec(acc, fetched)[i]) by {
                if i == 0 {
                    assert(new_lectures_spec(acc, fetched)[0] == head);
                    assert(fetched[0] == head);
                } else {
                    assert(new_lectures_spec(acc, fetched)[i] == new_lectures_spec(acc2, rest)[i
                        - 1]);
                    assert(rest.contains(new_lectures_spec(acc2, rest)[i - 1]));
                    let w = choose|j: int| 0 <= j < rest.len() && rest[j] == new_lectures_spec(
                        acc2,
                        rest,
                    )[i - 1];
                    assert(fetched[w + 1] == rest[w]);
                }
            }
        }
    }
}

/// After `new_lectures_spec`, every fetched identity key is present in the
/// accumulated-plus-new set.
proof fn lemma_new_spec_covers(acc: Seq<Lecture>, fetched: Seq<Lecture>)
    ensures
        forall|i: int|
            0 <= i < fetched.len() ==> has_id(
                acc + new_lectures_spec(acc, fetched),
                #[trigger] fetched[i].id@,
            ),
    decreases fetched.len(),
{
    if fetched.len() > 0 {
        let head = fetched[0];
        let rest = fetched.drop_first();
        let merged = acc + new_lectures_spec(acc, fetched);
        if has_id(acc, head.id@) {
            lemma_new_spec_covers(acc, rest);
            assert forall|i: int| 0 <= i < fetched.len() implies has_id(
                merged,
                #[trigger] fetched[i].id@,
            ) by {
                if i == 0 {
                    let w = choose|j: int| 0 <= j < acc.len() && acc[j].id@ == head.id@;
                    assert(merged[w].id@ == head.id@);
                } else {
                    assert(rest[i - 1] == fetched[i]);
                    assert(has_id(acc + new_lectures_spec(acc, rest), rest[i - 1].id@));
                }
            }
        } else {
            let acc2 = acc.push(head);
            lemma_new_spec_covers(acc2, rest);
            assert(merged =~= acc2 + new_lectures_spec(acc2, rest));
            assert forall|i: int| 0 <= i < fetched.len() implies has_id(
                merged,
                #[trigger] fetched[i].id@,
            ) by {
                if i == 0 {
                    assert(merged[acc.len() as int].id@ == head.id@);
                } else {
                    assert(rest[i - 1] == fetched[i]);
                    assert(has_id(acc2 + new_lectures_spec(acc2, rest), rest[i - 1].id@));
                }
            }
        }
    }
}

/// If every fetched identity key is already present in `acc`, nothing is
/// new.
proof fn lemma_new_spec_empty(acc: Seq<Lecture>, fetched: Seq<Lecture>)
    requires
        forall|i: int| 0 <= i < fetched.len() ==> has_id(acc, #[trigger] fetched[i].id@),
    ensures
        new_lectures_spec(acc, fetched) == Seq::<Lecture>::empty(),
    decreases fetched.len(),
{
    if fetched.len() > 0 {
        let rest = fetched.drop_first();
        assert(forall|i: int| 0 <= i < rest.len() ==> rest[i] == fetched[i + 1]);
        lemma_new_spec_empty(acc, rest);
    }
}

/// A filter that keeps everything is the identity.
proof fn lemma_filter_all(s: Seq<Lecture>, pred: spec_fn(Lecture) -> bool)
    requires
        forall|i: int| 0 <= i < s.len() ==> pred(#[trigger] s[i]),
    ensures
        s.filter(pred) == s,
    decreases s.len(),
{
    reveal(Seq::filter);
    if s.len() > 0 {
        let dl = s.drop_last();
        assert(forall|i: int| 0 <= i < dl.len() ==> dl[i] == s[i]);
        lemma_filter_all(dl, pred);
        assert(s.filter(pred) =~= s);
    }
}

/// Law: the new records are exactly the fetched records whose identity key
/// is absent from the expiry-filtered remembered set, in fetched order —
/// provided the fetched records carry distinct keys.
pub proof fn lemma_new_is_filter(remembered: Seq<Lecture>, fetched: Seq<Lecture>, today: int)
    requires
        unique_ids(fetched),
    ensures
        ({
            let kept = remembered.filter(|l: Lecture| !expired(l, today));
            new_lectures_spec(kept, fetched) == fetched.filter(
                |l: Lecture| !has_id(kept, l.id@),
            )
        }),
{
    let kept = remembered.filter(|l: Lecture| !expired(l, today));
    lemma_new_spec_is_filter(kept, fetched);
}

/// `new_lectures_spec` over key-distinct fetched records is a plain filter
/// against the starting set.
proof fn lemma_new_spec_is_filter(acc: Seq<Lecture>, fetched: Seq<Lecture>)
    requires
        unique_ids(fetched),
    ensures
        new_lectures_spec(acc, fetched) == fetched.filter(|l: Lecture| !has_id(acc, l.id@)),
    decreases fetched.len(),
{
    let pred = |l: Lecture| !has_id(acc, l.id@);
    if fetched.len() == 0 {
        assert(fetched.filter(pred) =~= Seq::<Lecture>::empty()) by {
            reveal(Seq::filter);
        }
    } else {
        let head = fetched[0];
        let rest = fetched.drop_first();
        assert(unique_ids(rest) && forall|i: int| 0 <= i < rest.len() ==> (#[trigger] rest[i])
            == fetched[i + 1]) by {
            assert(forall|i: int| 0 <= i < rest.len() ==> rest[i] == fetched[i + 1]);
        }
        assert(fetched =~= seq![head] + rest);
        Seq::filter_distributes_over_add(seq![head], rest, pred);
        assert(seq![head].filter(pred) =~= if pred(head) {
            Seq::<Lecture>::empty().push(head)
        } else {
            Seq::<Lecture>::empty()
        }) by {
            reveal_with_fuel(Seq::filter, 2);
            assert(seq![head].drop_last() =~= Seq::<Lecture>::empty());
        }
        if has_id(acc, head.id@) {
            lemma_new_spec_is_filter(acc, rest);
            assert(fetched.filter(pred) =~= rest.filter(pred));
        } else {
            let acc2 = acc.push(head);
            lemma_new_spec_is_filter(acc2, rest);
            let pred2 = |l: Lecture| !has_id(acc2, l.id@);
            assert(rest.filter(pred2) == rest.filter(pred)) by {
                assert forall|i: int| 0 <= i < rest.len() implies pred2(#[trigger] rest[i])
                    == pred(rest[i]) by {
                    assert(rest[i] == fetched[i + 1]);
                    assert(rest[i].id@ != head.id@);
                    if has_id(acc, rest[i].id@) {
                        let w = choose|j: int| 0 <= j < acc.len() && acc[j].id@ == rest[i].id@;
                        assert(acc2[w].id@ == rest[i].id@);
                    }
                    if has_id(acc2, rest[i].id@) {
                        let w = choose|j: int| 0 <= j < acc2.len() && acc2[j].id@ == rest[i].id@;
                        assert(w < acc.len());
                        assert(acc[w].id@ == rest[i].id@);
                    }
                }
                lemma_filter_congruent(rest, pred2, pred);
            }
            assert(fetched.filter(pred) =~= seq![head] + rest.filter(pred));
        }
    }
}

/// Filtering by predicates that agree on the sequence's elements gives the
/// same result.
proof fn lemma_filter_congruent(
    s: Seq<Lecture>,
    p: spec_fn(Lecture) -> bool,
    q: spec_fn(Lecture) -> bool,
)
    requires
        forall|i: int| 0 <= i < s.len() ==> p(#[trigger] s[i]) == q(s[i]),
    ensures
        s.filter(p) == s.filter(q),
    decreases s.len(),
{
    reveal(Seq::filter);
    if s.len() > 0 {
        let dl = s.drop_last();
        assert(forall|i: int| 0 <= i < dl.len() ==> dl[i] == s[i]);
        lemma_filter_congruent(dl, p, q);
    }
}

/// Law: the merged set extends the surviving remembered records and the new
/// records — it is exactly their concatenation — and carries no identity key
/// twice.
pub proof fn lemma_merged_sound(remembered: Seq<Lecture>, fetched: Seq<Lecture>, today: int)
    requires
        unique_ids(remembered),
    ensures
        ({
            let kept = remembered.filter(|l: Lecture| !expired(l, today));
            let newl = new_lectures_spec(kept, fetched);
            let merged = kept + newl;
            &&& forall|i: int| 0 <= i < kept.len() ==> merged.contains(#[trigger] kept[i])
            &&& forall|i: int| 0 <= i < newl.len() ==> merged.contains(#[trigger] newl[i])
            &&& unique_ids(merged)
        }),
{
    let pred = |l: Lecture| !expired(l, today);
    let kept = remembered.filter(pred);
    let newl = new_lectures_spec(kept, fetched);
    let merged = kept + newl;
    lemma_filter_ids(remembered, pred);
    lemma_new_spec_unique(kept, fetched);
    assert forall|i: int| 0 <= i < kept.len() implies merged.contains(#[trigger] kept[i]) by {
        assert(merged[i] == kept[i]);
    }
    assert forall|i: int| 0 <= i < newl.len() implies merged.contains(#[trigger] newl[i]) by {
        assert(merged[kept.len() + i] == newl[i]);
    }
}

/// Law: feeding the merged set straight back as the remembered set, with the
/// same fetch and the same day, finds nothing new — provided no fetched
/// record is already expired on that day (an expired fetched record would be
/// dropped again on the re-run and so found "new" once more).
pub proof fn lemma_diff_idempotent(remembered: Seq<Lecture>, fetched: Seq<Lecture>, today: int)
    requires
        forall|i: int| 0 <= i < fetched.len() ==> !expired(#[trigger] fetched[i], today),
    ensures
        ({
            let pred = |l: Lecture| !expired(l, today);
            let kept = remembered.filter(pred);
            let merged = kept + new_lectures_spec(kept, fetched);
            new_lectures_spec(merged.filter(pred), fetched) == Seq::<Lecture>::empty()
        }),
{
    let pred = |l: Lecture| !expired(l, today);
    let kept = remembered.filter(pred);
    let newl = new_lectures_spec(kept, fetched);
    let merged = kept + newl;
    lemma_new_spec_from_fetched(kept, fetched);
    lemma_new_spec_covers(kept, fetched);
    assert(merged.filter(pred) == merged) by {
        assert forall|i: int| 0 <= i < merged.len() implies pred(#[trigger] merged[i]) by {
            if i < kept.len() {
                assert(kept[i] == merged[i]);
            } else {
                assert(newl[i - kept.len()] == merged[i]);
                assert(fetched.contains(newl[i - kept.len()]));
                let w = choose|j: int|
                    0 <= j < fetched.len() && fetched[j] == newl[i - kept.len()];
                assert(!expired(fetched[w], today));
            }
        }
        lemma_filter_all(merged, pred);
    }
    lemma_new_spec_empty(merged, fetched);
}

/// Law: a remembered record whose date has passed is gone from the merged
/// set (when the fetch carries no expired record that could re-supply its
/// key's record), and a remembered record without a parseable date survives
/// into the merged set whatever its age.
pub proof fn lemma_expiry(remembered: Seq<Lecture>, fetched: Seq<Lecture>, today: int, l: Lecture)
    requires
        forall|i: int| 0 <= i < fetched.len() ==> !expired(#[trigger] fetched[i], today),
    ensures
        ({
            let pred = |l: Lecture| !expired(l, today);
            let kept = remembered.filter(pred);
            let merged = kept + new_lectures_spec(kept, fetched);
            &&& expired(l, today) ==> !merged.contains(l)
            &&& lecture_date_of(l.time@) is None && remembered.contains(l) ==> merged.contains(l)
        }),
{
    let pred = |l: Lecture| !expired(l, today);
    let kept = remembered.filter(pred);
    let newl = new_lectures_spec(kept, fetched);
    let merged = kept + newl;
    lemma_new_spec_from_fetched(kept, fetched);
    if expired(l, today) {
        assert(!merged.contains(l)) by {
            if merged.contains(l) {
                let w = choose|i: int| 0 <= i < merged.len() && merged[i] == l;
                if w < kept.len() {
                    assert(pred(kept[w]));
                } else {
                    assert(newl[w - kept.len()] == l);
                    assert(fetched.contains(l));
                    let v = choose|j: int| 0 <= j < fetched.len() && fetched[j] == l;
                    assert(!expired(fetched[v], today));
                }
            }
        }
    }
    if lecture_date_of(l.time@) is None && remembered.contains(l) {
        let w = choose|i: int| 0 <= i < remembered.len() && remembered[i] == l;
        assert(kept.contains(remembered[w]));
        let v = choose|i: int| 0 <= i < kept.len() && kept[i] == l;
        assert(merged[v] == l);
    }
}

/// How one protected fetch attempt stands.  `Fetching.retried` says whether
/// the session has already been rebuilt once for this attempt.
#[derive(Debug)]
pub enum PollState {
    NeedAuth,
    Fetching { token: String, retried: bool },
    Reauth,
    Done { body: String, token: String },
    Failed { error: Error },
}

/// How one protected call came back: a body on a successful status, the
/// failing status code, or a transport-level failure.
#[derive(Debug)]
pub enum FetchOutcome {
    Success { body: String },
    HttpStatus { code: u16 },
    Transport { message: String },
}

/// The outcome of what the poller last asked for.
#[derive(Debug)]
pub enum PollEvent {
    AuthDone { result: Result<String, crate::login::Error> },
    FetchDone { outcome: FetchOutcome },
}

/// What the poller asks the caller to do next: run the login handshake,
/// install the session token and issue the protected call, or stop.
#[derive(Debug)]
pub enum PollAction {
    Authenticate,
    Fetch { token: String },
    Finish,
}

/// Where a poll begins: with a cached session token it goes straight to the
/// protected call, without one it logs in first.
pub open spec fn spec_poll_start(cached_session: Option<String>) -> (PollState, PollAction) {
    match cached_session {
        Some(token) => (
            PollState::Fetching { token, retried: false },
            PollAction::Fetch { token },
        ),
        None => (PollState::NeedAuth, PollAction::Authenticate),
    }
}

/// One step of the poll.  A failing status on the first protected call
/// rebuilds the session and retries exactly once; a failing status on the
/// retried call, or any transport failure, ends the attempt.  An event that
/// does not answer what was asked leaves the state alone.
pub open spec fn spec_poll_step(s: PollState, e: PollEvent) -> (PollState, PollAction) {
    match (s, e) {
        (PollState::NeedAuth, PollEvent::AuthDone { result }) => match result {
            Ok(token) => (
                PollState::Fetching { token, retried: false },
                PollAction::Fetch { token },
            ),
            Err(error) => (
                PollState::Failed { error: Error::Login { error } },
                PollAction::Finish,
            ),
        },
        (PollState::Reauth, PollEvent::AuthDone { result }) => match result {
            Ok(token) => (
                PollState::Fetching { token, retried: true },
                PollAction::Fetch { token },
            ),
            Err(error) => (
                PollState::Failed { error: Error::Login { error } },
                PollAction::Finish,
            ),
        },
        (PollState::Fetching { token, retried }, PollEvent::FetchDone { outcome }) => match outcome {
            FetchOutcome::Success { body } => (
                PollState::Done { body, token },
                PollAction::Finish,
            ),
            FetchOutcome::Transport { message } => (
                PollState::Failed { error: Error::Transport { message } },
                PollAction::Finish,
            ),
            FetchOutcome::HttpStatus { code } => if retried {
                (PollState::Failed { error: Error::HttpStatus { code } }, PollAction::Finish)
            } else {
                (PollState::Reauth, PollAction::Authenticate)
            },
        },
        (other, _) => (other, PollAction::Finish),
    }
}

/// Begins a poll, as `spec_poll_start` describes.
pub fn poll_start(cached_session: Option<String>) -> (r: (PollState, PollAction))
    ensures
        r == spec_poll_start(cached_session),
{
    match cached_session {
        Some(token) => {
            let t2 = token.clone();
            (PollState::Fetching { token, retried: false }, PollAction::Fetch { token: t2 })
        },
        None => (PollState::NeedAuth, PollAction::Authenticate),
    }
}

/// Takes the outcome of what was asked for and moves the poll forward, as
/// `spec_poll_step` describes.
pub fn poll_step(state: PollState, event: PollEvent) -> (r: (PollState, PollAction))
    ensures
        r == spec_poll_step(state, event),
{
    match (state, event) {
        (PollState::NeedAuth, PollEvent::AuthDone { result }) => match result {
            Ok(token) => {
                let t2 = token.clone();
                (
                    PollState::Fetching { token, retried: false },
                    PollAction::Fetch { token: t2 },
                )
            },
            Err(error) => (
                PollState::Failed { error: Error::Login { error } },
                PollAction::Finish,
            ),
        },
        (PollState::Reauth, PollEvent::AuthDone { result }) => match result {
            Ok(token) => {
                let t2 = token.clone();
                (
                    PollState::Fetching { token, retried: true },
                    PollAction::Fetch { token: t2 },
                )
            },
            Err(error) => (
                PollState::Failed { error: Error::Login { error } },
                PollAction::Finish,
            ),
        },
        (PollState::Fetching { token, retried }, PollEvent::FetchDone { outcome }) => match outcome {
            FetchOutcome::Success { body } => (
                PollState::Done { body, token },
                PollAction::Finish,
            ),
            FetchOutcome::Transport { message } => (
                PollState::Failed { error: Error::Transport { message } },
                PollAction::Finish,
            ),
            FetchOutcome::HttpStatus { code } => if retried {
                (PollState::Failed { error: Error::HttpStatus { code } }, PollAction::Finish)
            } else {
                (PollState::Reauth, PollAction::Authenticate)
            },
        },
        (other, _) => (other, PollAction::Finish),
    }
}

/// Law: a first protected call answered with a failing status leads to one
/// re-authentication and one retry, whose successful body and fresh token
/// are what the poll returns; a failing status on the retry ends the poll
/// with the status error and asks for no third call.
pub proof fn lemma_poll_retry_once(
    t0: String,
    t2: String,
    body: String,
    code1: u16,
    code2: u16,
)
    ensures
        ({
            let (s1, a1) = spec_poll_start(Some(t0));
            let (s2, a2) = spec_poll_step(
                s1,
                PollEvent::FetchDone { outcome: FetchOutcome::HttpStatus { code: code1 } },
            );
            let (s3, a3) = spec_poll_step(s2, PollEvent::AuthDone { result: Ok(t2) });
            let (s4, a4) = spec_poll_step(
                s3,
                PollEvent::FetchDone { outcome: FetchOutcome::Success { body } },
            );
            let (s5, a5) = spec_poll_step(
                s3,
                PollEvent::FetchDone { outcome: FetchOutcome::HttpStatus { code: code2 } },
            );
            &&& a2 is Authenticate
            &&& a3 == (PollAction::Fetch { token: t2 })
            &&& s4 == (PollState::Done { body, token: t2 })
            &&& a4 is Finish
            &&& s5 == (PollState::Failed { error: Error::HttpStatus { code: code2 } })
            &&& a5 is Finish
        }),
{
}

/// Reads the decoded response envelope: a success code hands the records
/// through, any other code is an application-level rejection carrying the
/// envelope's message, never retried.
pub fn interpret_envelope(code: i64, msg: String, lectures: Vec<Lecture>) -> (r: Result<
    Vec<Lecture>,
    Error,
>)
    ensures
        code == 200 ==> (r matches Ok(l) && l@ == lectures@),
        code != 200 ==> (r matches Err(Error::Api { message }) && message@ == msg@),
{
    if code == 200 {
        Ok(lectures)
    } else {
        Err(Error::Api { message: msg })
    }
}

} // verus!
