//! The notification fanout's decisions: which backends a delta goes to,
//! the exact messages each backend is given, and how per-backend outcomes
//! are folded into one overall result.  The deliveries themselves — the
//! desktop notification and the push-service posts — are performed by the
//! calling workflow, independently and concurrently, one outcome each.

use vstd::prelude::*;
use vstd::string::*;
use crate::client::{Lecture, Notice};
use crate::text::{dec_str, join_with, join_lines, u64_to_string};

verus! {

/// Which backend a message goes through.
#[derive(Clone, Copy, Debug, PartialEq, Eq, Structural)]
pub enum BackendKind {
    Local,
    Sct,
    Sc3,
}

/// The notification configuration, handed in explicitly by the workflow:
/// the enabled backend names, and each push backend's secret key where one
/// is configured.
pub struct FanoutConfig {
    pub enabled: Vec<String>,
    pub sct_key: Option<String>,
    pub sc3_key: Option<String>,
}

/// The lower-case folding of a string's characters.
pub uninterp spec fn lower_chars_of(s: Seq<char>) -> Seq<char>;

/// Relies on str::to_lowercase: the folding depends on the characters
/// alone.
#[verifier::external_body]
fn to_lower(s: &str) -> (r: String)
    ensures
        r@ == lower_chars_of(s@),
{
    s.to_lowercase()
}

/// Whether `key` names an enabled backend: some enabled name folds to the
/// same lower-case characters.
pub open spec fn spec_is_configured(key: Seq<char>, enabled: Seq<Seq<char>>) -> bool {
    exists|i: int| 0 <= i < enabled.len() && lower_chars_of(enabled[i]) == lower_chars_of(key)
}

/// Says whether `key` is among the enabled backend names, matched without
/// regard to case.
#[verifier::loop_isolation(false)]
pub fn is_configured(key: &str, enabled: &Vec<String>) -> (r: bool)
    ensures
        r == spec_is_configured(key@, enabled.deep_view()),
{
    let folded_key = to_lower(key);
    let mut i: usize = 0;
    while i < enabled.len()
        invariant
            i <= enabled@.len(),
            forall|j: int|
                0 <= j < i ==> lower_chars_of(enabled.deep_view()[j]) != lower_chars_of(key@),
        decreases enabled@.len() - i,
    {
        let folded = to_lower(enabled[i].as_str());
        proof {
            assert(enabled.deep_view()[i as int] == enabled@[i as int]@);
        }
        if folded == folded_key {
            return true;
        }
        i += 1;
    }
    false
}

/// The name each backend is enabled under.
pub open spec fn backend_name_spec(kind: BackendKind) -> Seq<char> {
    match kind {
        BackendKind::Local => "local"@,
        BackendKind::Sct => "SCT"@,
        BackendKind::Sc3 => "SC3"@,
    }
}

/// The backend's configuration name, as `backend_name_spec` gives it.
pub fn backend_name(kind: BackendKind) -> (r: &'static str)
    ensures
        r@ == backend_name_spec(kind),
{
    match kind {
        BackendKind::Local => "local",
        BackendKind::Sct => "SCT",
        BackendKind::Sc3 => "SC3",
    }
}

/// Whether the backend's required secret is configured; the local backend
/// needs none.
pub open spec fn key_present(kind: BackendKind, cfg: FanoutConfig) -> bool {
    match kind {
        BackendKind::Local => true,
        BackendKind::Sct => cfg.sct_key is Some,
        BackendKind::Sc3 => cfg.sc3_key is Some,
    }
}

/// Whether a delivery through `kind` is attempted at all: the backend must
/// be enabled by name, the payload must be non-empty, and the backend's
/// secret must be configured.  Everything else is a silent skip, counted as
/// success.
pub open spec fn spec_should_attempt(kind: BackendKind, cfg: FanoutConfig, payload_len: nat) -> bool {
    &&& spec_is_configured(backend_name_spec(kind), cfg.enabled.deep_view())
    &&& payload_len > 0
    &&& key_present(kind, cfg)
}

/// Decides whether to attempt a delivery, as `spec_should_attempt`
/// describes.
pub fn should_attempt(kind: BackendKind, cfg: &FanoutConfig, payload_len: usize) -> (r: bool)
    ensures
        r == spec_should_attempt(kind, *cfg, payload_len as nat),
{
    if payload_len == 0 {
        return false;
    }
    if !is_configured(backend_name(kind), &cfg.enabled) {
        return false;
    }
    match kind {
        BackendKind::Local => true,
        BackendKind::Sct => cfg.sct_key.is_some(),
        BackendKind::Sc3 => cfg.sc3_key.is_some(),
    }
}

/// One backend's failed delivery, tagged with the backend it came from.
#[derive(Debug)]
pub struct BackendError {
    pub backend: BackendKind,
    pub message: String,
}

/// The failures among per-backend outcomes, in order: each outcome is the
/// backend and, for a failed delivery, its message.
pub open spec fn failures_of(outcomes: Seq<(BackendKind, Option<String>)>) -> Seq<
    (BackendKind, Seq<char>),
>
    decreases outcomes.len(),
{
    if outcomes.len() == 0 {
        Seq::empty()
    } else {
        failures_of(outcomes.drop_last()) + (match outcomes.last().1 {
            Some(m) => seq![(outcomes.last().0, m@)],
            None => Seq::empty(),
        })
    }
}

/// The backend-and-message reading of a list of backend errors.
pub open spec fn errors_view(errs: Seq<BackendError>) -> Seq<(BackendKind, Seq<char>)> {
    errs.map_values(|e: BackendError| (e.backend, e.message@))
}

/// Folds the per-backend outcomes into one result: success only if every
/// outcome succeeded, otherwise every failure, in order, each tagged with
/// its backend — one backend's failure hides no other's.
#[verifier::loop_isolation(false)]
pub fn aggregate_outcomes(outcomes: Vec<(BackendKind, Option<String>)>) -> (r: Result<
    (),
    Vec<BackendError>,
>)
    ensures
        r is Ok <==> failures_of(outcomes@).len() == 0,
        r matches Err(errs) ==> errors_view(errs@) == failures_of(outcomes@) && errs@.len() > 0,
{
    let mut errs: Vec<BackendError> = Vec::new();
    let n = outcomes.len();
    let mut i: usize = 0;
    proof {
        assert(outcomes@.subrange(0, 0) =~= Seq::<(BackendKind, Option<String>)>::empty());
        assert(errors_view(errs@) =~= Seq::<(BackendKind, Seq<char>)>::empty());
    }
    while i < n
        invariant
            i <= n,
            errors_view(errs@) == failures_of(outcomes@.subrange(0, i as int)),
        decreases n - i,
    {
        proof {
            assert(outcomes@.subrange(0, i + 1).drop_last() =~= outcomes@.subrange(0, i as int));
            assert(outcomes@.subrange(0, i + 1).last() == outcomes@[i as int]);
        }
        let (backend, outcome) = (outcomes[i].0, outcomes[i].1.clone());
        match outcome {
            Some(message) => {
                let ghost before = errs@;
                errs.push(BackendError { backend, message });
                proof {
                    assert(errors_view(errs@) =~= errors_view(before) + seq![
                        (outcomes@[i as int].0, outcomes@[i as int].1->0@),
                    ]);
                }
            },
            None => {},
        }
        i += 1;
    }
    proof {
        assert(outcomes@.subrange(0, n as int) =~= outcomes@);
    }
    if errs.len() == 0 {
        proof {
            assert(errors_view(errs@) =~= Seq::<(BackendKind, Seq<char>)>::empty());
        }
        Ok(())
    } else {
        proof {
            assert(errors_view(errs@).len() == errs@.len());
        }
        Err(errs)
    }
}

/// Law: backends are independent.  A backend that is not enabled attempts
/// no delivery at all, whatever the others do; and when one attempted
/// backend fails while another succeeds, the aggregate is exactly the
/// failing backend's error — the success stands, the failure is reported,
/// and neither hides the other.
pub proof fn lemma_fanout_isolation(
    cfg: FanoutConfig,
    payload_len: nat,
    off_kind: BackendKind,
    ok_kind: BackendKind,
    bad_kind: BackendKind,
    message: String,
)
    requires
        !spec_is_configured(backend_name_spec(off_kind), cfg.enabled.deep_view()),
    ensures
        !spec_should_attempt(off_kind, cfg, payload_len),
        failures_of(seq![(ok_kind, None), (bad_kind, Some(message))]) == seq![
            (bad_kind, message@),
        ],
{
    let two: Seq<(BackendKind, Option<String>)> = seq![(ok_kind, None), (bad_kind, Some(message))];
    let one: Seq<(BackendKind, Option<String>)> = seq![(ok_kind, None)];
    assert(two.drop_last() =~= one);
    assert(one.drop_last() =~= Seq::<(BackendKind, Option<String>)>::empty());
    assert(failures_of(Seq::<(BackendKind, Option<String>)>::empty()) =~= Seq::<
        (BackendKind, Seq<char>),
    >::empty());
    assert(failures_of(one) =~= Seq::<(BackendKind, Seq<char>)>::empty());
    assert(failures_of(two) =~= seq![(bad_kind, message@)]);
}

/// The desktop-notification backend.
pub struct LocalAdapter;

/// The first push-service backend, keyed by `sct.key`.
pub struct SCTAdapter;

/// The second push-service backend, keyed by `sc3.key`.
pub struct SC3Adapter;

/// The bullet line for one notice: its title behind a dash.
pub open spec fn notice_bullet_lines(notices: Seq<Notice>) -> Seq<Seq<char>> {
    notices.map_values(|n: Notice| "- "@ + n.title@)
}

/// The markdown link line for one notice: its title linking to its address.
pub open spec fn notice_link_lines(notices: Seq<Notice>) -> Seq<Seq<char>> {
    notices.map_values(|n: Notice| "- ["@ + n.title@ + "]("@ + n.url@ + ")"@)
}

/// The bullet line for one lecture: its title behind a dash.
pub open spec fn lecture_bullet_lines(lectures: Seq<Lecture>) -> Seq<Seq<char>> {
    lectures.map_values(|l: Lecture| "- "@ + l.title@)
}

/// The markdown table row for one lecture: title, level, speaker and time.
pub open spec fn lecture_table_rows(lectures: Seq<Lecture>) -> Seq<Seq<char>> {
    lectures.map_values(
        |l: Lecture| "|"@ + l.title@ + "|"@ + l.level@ + "|"@ + l.speaker@ + "|"@ + l.time@ + "|"@,
    )
}

#[verifier::loop_isolation(false)]
fn notice_bullet_vec(notices: &Vec<Notice>) -> (r: Vec<String>)
    ensures
        r.deep_view() == notice_bullet_lines(notices@),
{
    let mut r: Vec<String> = Vec::new();
    let mut i: usize = 0;
    proof {
        assert(r.deep_view() =~= notice_bullet_lines(notices@.subrange(0, 0)));
    }
    while i < notices.len()
        invariant
            i <= notices@.len(),
            r.deep_view() == notice_bullet_lines(notices@.subrange(0, i as int)),
        decreases notices@.len() - i,
    {
        let mut line = String::from_str("- ");
        line.append(notices[i].title.as_str());
        let ghost prev = r.deep_view();
        let ghost prefix = notices@.subrange(0, i as int);
        r.push(line);
        proof {
            assert(notices@.subrange(0, i + 1) =~= prefix.push(notices@[i as int]));
            assert(r.deep_view() =~= prev.push(line@));
            assert(notice_bullet_lines(prefix.push(notices@[i as int])) =~= notice_bullet_lines(
                prefix,
            ).push("- "@ + notices@[i as int].title@));
        }
        i += 1;
    }
    proof {
        assert(notices@.subrange(0, notices@.len() as int) =~= notices@);
    }
    r
}

#[verifier::loop_isolation(false)]
fn notice_link_vec(notices: &Vec<Notice>) -> (r: Vec<String>)
    ensures
        r.deep_view() == notice_link_lines(notices@),
{
    let mut r: Vec<String> = Vec::new();
    let mut i: usize = 0;
    proof {
        assert(r.deep_view() =~= notice_link_lines(notices@.subrange(0, 0)));
    }
    while i < notices.len()
        invariant
            i <= notices@.len(),
            r.deep_view() == notice_link_lines(notices@.subrange(0, i as int)),
        decreases notices@.len() - i,
    {
        let mut line = String::from_str("- [");
        line.append(notices[i].title.as_str());
        line.append("](");
        line.append(notices[i].url.as_str());
        line.append(")");
        let ghost prev = r.deep_view();
        let ghost prefix = notices@.subrange(0, i as int);
        r.push(line);
        proof {
            assert(notices@.subrange(0, i + 1) =~= prefix.push(notices@[i as int]));
            assert(r.deep_view() =~= prev.push(line@));
            assert(notice_link_lines(prefix.push(notices@[i as int])) =~= notice_link_lines(
                prefix,
            ).push("- ["@ + notices@[i as int].title@ + "]("@ + notices@[i as int].url@ + ")"@));
        }
        i += 1;
    }
    proof {
        assert(notices@.subrange(0, notices@.len() as int) =~= notices@);
    }
    r
}

#[verifier::loop_isolation(false)]
fn lecture_bullet_vec(lectures: &Vec<Lecture>) -> (r: Vec<String>)
    ensures
        r.deep_view() == lecture_bullet_lines(lectures@),
{
    let mut r: Vec<String> = Vec::new();
    let mut i: usize = 0;
    proof {
        assert(r.deep_view() =~= lecture_bullet_lines(lectures@.subrange(0, 0)));
    }
    while i < lectures.len()
        invariant
            i <= lectures@.len(),
            r.deep_view() == lecture_bullet_lines(lectures@.subrange(0, i as int)),
        decreases lectures@.len() - i,
    {
        let mut line = String::from_str("- ");
        line.append(lectures[i].title.as_str());
        let ghost prev = r.deep_view();
        let ghost prefix = lectures@.subrange(0, i as int);
        r.push(line);
        proof {
            assert(lectures@.subrange(0, i + 1) =~= prefix.push(lectures@[i as int]));
            assert(r.deep_view() =~= prev.push(line@));
            assert(lecture_bullet_lines(prefix.push(lectures@[i as int])) =~= lecture_bullet_lines(
                prefix,
            ).push("- "@ + lectures@[i as int].title@));
        }
        i += 1;
    }
    proof {
        assert(lectures@.subrange(0, lectures@.len() as int) =~= lectures@);
    }
    r
}

#[verifier::loop_isolation(false)]
fn lecture_row_vec(lectures: &Vec<Lecture>) -> (r: Vec<String>)
    ensures
        r.deep_view() == lecture_table_rows(lectures@),
{
    let mut r: Vec<String> = Vec::new();
    let mut i: usize = 0;
    proof {
        assert(r.deep_view() =~= lecture_table_rows(lectures@.subrange(0, 0)));
    }
    while i < lectures.len()
        invariant
            i <= lectures@.len(),
            r.deep_view() == lecture_table_rows(lectures@.subrange(0, i as int)),
        decreases lectures@.len() - i,
    {
        let mut line = String::from_str("|");
        line.append(lectures[i].title.as_str());
        line.append("|");
        line.append(lectures[i].level.as_str());
        line.append("|");
        line.append(lectures[i].speaker.as_str());
        line.append("|");
        line.append(lectures[i].time.as_str());
        line.append("|");
        let ghost prev = r.deep_view();
        let ghost prefix = lectures@.subrange(0, i as int);
        r.push(line);
        proof {
            assert(lectures@.subrange(0, i + 1) =~= prefix.push(lectures@[i as int]));
            assert(r.deep_view() =~= prev.push(line@));
            assert(lecture_table_rows(prefix.push(lectures@[i as int])) =~= lecture_table_rows(
                prefix,
            ).push(
                "|"@ + lectures@[i as int].title@ + "|"@ + lectures@[i as int].level@ + "|"@
                    + lectures@[i as int].speaker@ + "|"@ + lectures@[i as int].time@ + "|"@,
            ));
        }
        i += 1;
    }
    proof {
        assert(lectures@.subrange(0, lectures@.len() as int) =~= lectures@);
    }
    r
}

impl LocalAdapter {
    /// The desktop notification for newly published notices: a title with
    /// the count, and one bullet line per notice.
    pub fn notice_message(notices: &Vec<Notice>) -> (r: (String, String))
        ensures
            r.0@ == "学院已发布"@ + dec_str(notices@.len()) + "条新的通知/公告"@,
            r.1@ == join_with(notice_bullet_lines(notices@), "\n"@),
    {
        let mut title = String::from_str("学院已发布");
        title.append(u64_to_string(notices.len() as u64).as_str());
        title.append("条新的通知/公告");
        let body = join_lines(&notice_bullet_vec(notices));
        (title, body)
    }

    /// The desktop notification for new lectures: a title with the count,
    /// and one bullet line per lecture.
    pub fn lecture_message(lectures: &Vec<Lecture>) -> (r: (String, String))
        ensures
            r.0@ == "找到"@ + dec_str(lectures@.len()) + "条新的同济大讲堂"@,
            r.1@ == join_with(lecture_bullet_lines(lectures@), "\n"@),
    {
        let mut title = String::from_str("找到");
        title.append(u64_to_string(lectures.len() as u64).as_str());
        title.append("条新的同济大讲堂");
        let body = join_lines(&lecture_bullet_vec(lectures));
        (title, body)
    }
}

impl SCTAdapter {
    /// The push address for this backend's key.
    pub fn push_url(key: &str) -> (r: String)
        ensures
            r@ == "https://sctapi.ftqq.com/"@ + key@ + ".send"@,
    {
        let mut r = String::from_str("https://sctapi.ftqq.com/");
        r.append(key);
        r.append(".send");
        r
    }

    /// The push message for newly published notices: title, a markdown list
    /// of links, and a short line naming the first notice and the count.
    pub fn notice_message(notices: &Vec<Notice>) -> (r: (String, String, String))
        requires
            notices@.len() > 0,
        ensures
            r.0@ == "学院已发布新的通知/公告"@,
            r.1@ == "# 通知/公告列表\n\n"@ + join_with(notice_link_lines(notices@), "\n"@),
            r.2@ == "\""@ + notices@[0].title@ + "\"等"@ + dec_str(notices@.len())
                + "条通知/公告"@,
    {
        let title = String::from_str("学院已发布新的通知/公告");
        let mut desp = String::from_str("# 通知/公告列表\n\n");
        desp.append(join_lines(&notice_link_vec(notices)).as_str());
        let mut short = String::from_str("\"");
        short.append(notices[0].title.as_str());
        short.append("\"等");
        short.append(u64_to_string(notices.len() as u64).as_str());
        short.append("条通知/公告");
        (title, desp, short)
    }

    /// The push message for new lectures: title, a markdown table of the
    /// lectures, and a short line naming the first lecture and the count.
    pub fn lecture_message(lectures: &Vec<Lecture>) -> (r: (String, String, String))
        requires
            lectures@.len() > 0,
        ensures
            r.0@ == "找到新的同济大讲堂"@,
            r.1@ == "|主题|级别|主讲人|时间|\n|:-:|:-:|:-:|:-:|\n"@ + join_with(
                lecture_table_rows(lectures@),
                "\n"@,
            ),
            r.2@ == "\""@ + lectures@[0].title@ + "\"等"@ + dec_str(lectures@.len())
                + "条同济大讲堂"@,
    {
        let title = String::from_str("找到新的同济大讲堂");
        let mut desp = String::from_str("|主题|级别|主讲人|时间|\n|:-:|:-:|:-:|:-:|\n");
        desp.append(join_lines(&lecture_row_vec(lectures)).as_str());
        let mut short = String::from_str("\"");
        short.append(lectures[0].title.as_str());
        short.append("\"等");
        short.append(u64_to_string(lectures.len() as u64).as_str());
        short.append("条同济大讲堂");
        (title, desp, short)
    }
}

impl SC3Adapter {
    /// The push address for this backend's key.
    pub fn push_url(key: &str) -> (r: String)
        ensures
            r@ == "https://"@ + key@ + ".push.ft07.com/send"@,
    {
        let mut r = String::from_str("https://");
        r.append(key);
        r.append(".push.ft07.com/send");
        r
    }

    /// The fixed tags sent with a notice push.
    pub fn notice_tags() -> (r: &'static str)
        ensures
            r@ == "同济大学|通知"@,
    {
        "同济大学|通知"
    }

    /// The fixed tags sent with a lecture push.
    pub fn lecture_tags() -> (r: &'static str)
        ensures
            r@ == "同济大学|同济大讲堂"@,
    {
        "同济大学|同济大讲堂"
    }

    /// The push message for newly published notices; the text matches the
    /// other push backend's.
    pub fn notice_message(notices: &Vec<Notice>) -> (r: (String, String, String))
        requires
            notices@.len() > 0,
        ensures
            r.0@ == "学院已发布新的通知/公告"@,
            r.1@ == "# 通知/公告列表\n\n"@ + join_with(notice_link_lines(notices@), "\n"@),
            r.2@ == "\""@ + notices@[0].title@ + "\"等"@ + dec_str(notices@.len())
                + "条通知/公告"@,
    {
        SCTAdapter::notice_message(notices)
    }

    /// The push message for new lectures; the text matches the other push
    /// backend's.
    pub fn lecture_message(lectures: &Vec<Lecture>) -> (r: (String, String, String))
        requires
            lectures@.len() > 0,
        ensures
            r.0@ == "找到新的同济大讲堂"@,
            r.1@ == "|主题|级别|主讲人|时间|\n|:-:|:-:|:-:|:-:|\n"@ + join_with(
                lecture_table_rows(lectures@),
                "\n"@,
            ),
            r.2@ == "\""@ + lectures@[0].title@ + "\"等"@ + dec_str(lectures@.len())
                + "条同济大讲堂"@,
    {
        SCTAdapter::lecture_message(lectures)
    }
}

/// The message a failed run is reported with, through the same fanout: the
/// run's time stamp and the failure's own words.
pub fn error_report_message(context: &str, error_text: &str) -> (r: (String, String))
    ensures
        r.0@ == "Error report"@,
        r.1@ == context@ + "\n"@ + error_text@,
{
    let title = String::from_str("Error report");
    let mut body = String::from_str(context);
    body.append("\n");
    body.append(error_text);
    (title, body)
}

} // verus!
