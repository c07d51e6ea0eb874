//! WeChat login by QR code: sessions that move from waiting to scanned to confirmed,
//! or expire unanswered.

use vstd::prelude::*;
use crate::clock::now_timestamp;
use crate::error::AppError;
use crate::keyed::{
    lemma_map_of_filter, restrict_where, value_pred, has_key, lemma_map_of_absent, lemma_map_of_empty, lemma_map_of_index, lemma_map_of_push,
    lemma_map_of_update, map_of, unique_keys,
};
use crate::text::{concat3, seq_contains, str_eq, str_to_string};
use resvg::tiny_skia::{Pixmap, Transform};
use resvg::usvg::{Options, Tree};

verus! {

/// Where a QR login stands.
#[derive(Debug, PartialEq, Eq)]
pub enum WechatQRStatus {
    Wait,
    Scanned,
    Confirmed,
    Expired,
    Error(String),
}

/// The value of a status; an error keeps its message.
pub enum QRStatusView {
    Wait,
    Scanned,
    Confirmed,
    Expired,
    Error(Seq<char>),
}

impl View for WechatQRStatus {
    type V = QRStatusView;

    open spec fn view(&self) -> QRStatusView {
        match self {
            WechatQRStatus::Wait => QRStatusView::Wait,
            WechatQRStatus::Scanned => QRStatusView::Scanned,
            WechatQRStatus::Confirmed => QRStatusView::Confirmed,
            WechatQRStatus::Expired => QRStatusView::Expired,
            WechatQRStatus::Error(m) => QRStatusView::Error(m@),
        }
    }
}

impl Clone for WechatQRStatus {
    fn clone(&self) -> (r: Self)
        ensures
            r@ == self@,
    {
        match self {
            WechatQRStatus::Wait => WechatQRStatus::Wait,
            WechatQRStatus::Scanned => WechatQRStatus::Scanned,
            WechatQRStatus::Confirmed => WechatQRStatus::Confirmed,
            WechatQRStatus::Expired => WechatQRStatus::Expired,
            WechatQRStatus::Error(m) => WechatQRStatus::Error(m.clone()),
        }
    }
}

/// The name of a status as the web API reports it.
pub open spec fn status_name(s: QRStatusView) -> Seq<char> {
    match s {
        QRStatusView::Wait => "wait"@,
        QRStatusView::Scanned => "scaned"@,
        QRStatusView::Confirmed => "confirmed"@,
        QRStatusView::Expired => "expired"@,
        QRStatusView::Error(_) => "error"@,
    }
}

impl WechatQRStatus {
    /// The name of the status as the web API reports it.
    pub fn as_str(&self) -> (r: &'static str)
        ensures
            r@ == status_name(self@),
    {
        match self {
            WechatQRStatus::Wait => "wait",
            WechatQRStatus::Scanned => "scaned",
            WechatQRStatus::Confirmed => "confirmed",
            WechatQRStatus::Expired => "expired",
            WechatQRStatus::Error(_) => "error",
        }
    }
}

/// One QR login attempt.
#[derive(Debug)]
pub struct WechatQRSession {
    pub id: String,
    pub qr_url: String,
    pub qr_data: Vec<u8>,
    pub status: WechatQRStatus,
    pub created_at: i64,
    pub expires_at: i64,
}

/// The value of a session.
pub struct QRSessionView {
    pub id: Seq<char>,
    pub qr_url: Seq<char>,
    pub qr_data: Seq<u8>,
    pub status: QRStatusView,
    pub created_at: i64,
    pub expires_at: i64,
}

impl View for WechatQRSession {
    type V = QRSessionView;

    open spec fn view(&self) -> QRSessionView {
        QRSessionView {
            id: self.id@,
            qr_url: self.qr_url@,
            qr_data: self.qr_data@,
            status: self.status@,
            created_at: self.created_at,
            expires_at: self.expires_at,
        }
    }
}

impl Clone for WechatQRSession {
    fn clone(&self) -> (r: Self)
        ensures
            r@ == self@,
    {
        WechatQRSession {
            id: self.id.clone(),
            qr_url: self.qr_url.clone(),
            qr_data: self.qr_data.clone(),
            status: self.status.clone(),
            created_at: self.created_at,
            expires_at: self.expires_at,
        }
    }
}

/// The message of a missing session.
pub open spec fn session_not_found(id: Seq<char>) -> Seq<char> {
    "QR session "@ + id + " not found"@
}

/// A session's status after a status check at time `now`: a waiting session whose
/// deadline has passed is expired.
pub open spec fn checked_status(s: QRStatusView, expires_at: i64, now: i64) -> QRStatusView {
    if s is Wait && now > expires_at {
        QRStatusView::Expired
    } else {
        s
    }
}

/// The session with its status replaced.
pub open spec fn with_status(s: QRSessionView, status: QRStatusView) -> QRSessionView {
    QRSessionView { status, ..s }
}

/// A session is kept while the clock reading `now` is not past its deadline.
pub open spec fn still_valid(now: i64) -> spec_fn(QRSessionView) -> bool {
    |s: QRSessionView| !(now > s.expires_at)
}

fn image_url(id: &str) -> (r: String)
    ensures
        r@ == "/api/wechat/qr/image/"@ + id@,
{
    let mut r = str_to_string("/api/wechat/qr/image/");
    crate::text::push_str(&mut r, id);
    r
}

/// Whether one of the first `n` pairs has key `id` and a value that fails `p`.
pub open spec fn came_from(es: Seq<(Seq<char>, QRSessionView)>, p: spec_fn(QRSessionView) -> bool, n: int, id: Seq<char>) -> bool {
    exists|k: int| 0 <= k < n && es[k].0 == id && !p(es[k].1)
}

/// Whether one of the strings is `k`.
pub open spec fn lists_id(v: Seq<String>, k: Seq<char>) -> bool {
    exists|i: int| 0 <= i < v.len() && #[trigger] v[i]@ == k
}

/// The QR login sessions, by identifier.
pub struct WechatManager {
    sessions: Vec<WechatQRSession>,
}

impl WechatManager {
    pub closed spec fn entries(&self) -> Seq<(Seq<char>, QRSessionView)> {
        self.sessions@.map_values(|s: WechatQRSession| (s.id@, s@))
    }

    /// The sessions, by identifier.
    pub closed spec fn sessions_view(&self) -> Map<Seq<char>, QRSessionView> {
        map_of(self.entries())
    }

    /// Each identifier is held once.
    pub closed spec fn wf(&self) -> bool {
        unique_keys(self.entries())
    }

    /// No sessions.
    pub fn new() -> (r: Self)
        ensures
            r.wf(),
            r.sessions_view() == Map::<Seq<char>, QRSessionView>::empty(),
    {
        let r = WechatManager { sessions: Vec::new() };
        proof {
            lemma_map_of_empty(r.entries());
        }
        r
    }

    fn find(&self, id: &str) -> (r: Option<usize>)
        requires
            self.wf(),
        ensures
            match r {
                Some(i) => i < self.sessions@.len() && self.sessions@[i as int].id@ == id@
                    && self.sessions_view().dom().contains(id@)
                    && self.sessions_view()[id@] == self.sessions@[i as int]@,
                None => !self.sessions_view().dom().contains(id@),
            },
    {
        let mut i: usize = 0;
        while i < self.sessions.len()
            invariant
                i <= self.sessions@.len(),
                self.wf(),
                forall|j: int| 0 <= j < i ==> #[trigger] self.sessions@[j].id@ != id@,
            decreases self.sessions.len() - i,
        {
            if str_eq(self.sessions[i].id.as_str(), id) {
                proof {
                    lemma_map_of_index(self.entries(), i as int);
                }
                return Some(i);
            }
            i = i + 1;
        }
        proof {
            assert forall|j: int| 0 <= j < self.entries().len() implies #[trigger] self.entries()[j].0 != id@ by {
                assert(self.entries()[j].0 == self.sessions@[j].id@);
            }
            lemma_map_of_absent(self.entries(), id@);
        }
        None
    }

    fn set_status(&mut self, i: usize, status: WechatQRStatus)
        requires
            old(self).wf(),
            i < old(self).sessions@.len(),
        ensures
            final(self).wf(),
            final(self).sessions_view() == old(self).sessions_view().insert(
                old(self).sessions@[i as int].id@,
                with_status(old(self).sessions@[i as int]@, status@),
            ),
            final(self).sessions@.len() == old(self).sessions@.len(),
            final(self).sessions@[i as int]@ == with_status(old(self).sessions@[i as int]@, status@),
    {
        let ghost old_entries = self.entries();
        let mut s = self.sessions[i].clone();
        s.status = status;
        let ghost sv = s@;
        self.sessions.set(i, s);
        proof {
            assert(self.entries() =~= old_entries.update(i as int, (old_entries[i as int].0, sv)));
            lemma_map_of_update(old_entries, i as int, sv);
        }
    }

    /// Starts a waiting session `id` for the rendered code `qr_data`, valid for five
    /// minutes from now, served at `/api/wechat/qr/image/{id}`.
    pub fn register_qr(&mut self, id: String, qr_data: Vec<u8>) -> (r: WechatQRSession)
        requires
            old(self).wf(),
        ensures
            final(self).wf(),
            r.id@ == id@,
            r.qr_url@ == "/api/wechat/qr/image/"@ + id@,
            r.qr_data@ == qr_data@,
            r.status is Wait,
            r.expires_at == r.created_at + 300,
            final(self).sessions_view() == old(self).sessions_view().insert(id@, r@),
    {
        let now = now_timestamp();
        let session = WechatQRSession {
            id: id.clone(),
            qr_url: image_url(id.as_str()),
            qr_data,
            status: WechatQRStatus::Wait,
            created_at: now,
            expires_at: now + 300,
        };
        let out = session.clone();
        let ghost old_entries = self.entries();
        let ghost sv = session@;
        match self.find(id.as_str()) {
            Some(i) => {
                self.sessions.set(i, session);
                proof {
                    assert(self.entries() =~= old_entries.update(i as int, (old_entries[i as int].0, sv)));
                    lemma_map_of_update(old_entries, i as int, sv);
                }
            },
            None => {
                self.sessions.push(session);
                proof {
                    assert(self.entries() =~= old_entries.push((id@, sv)));
                    if has_key(old_entries, id@) {
                        let j = choose|j: int| 0 <= j < old_entries.len() && old_entries[j].0 == id@;
                        lemma_map_of_index(old_entries, j);
                    }
                    lemma_map_of_push(old_entries, id@, sv);
                }
            },
        }
        out
    }

    /// The session `session_id`, if any.
    pub fn get_session(&self, session_id: &str) -> (r: Option<WechatQRSession>)
        requires
            self.wf(),
        ensures
            match r {
                Some(s) => self.sessions_view().dom().contains(session_id@) && s@ == self.sessions_view()[session_id@],
                None => !self.sessions_view().dom().contains(session_id@),
            },
    {
        match self.find(session_id) {
            Some(i) => Some(self.sessions[i].clone()),
            None => None,
        }
    }

    /// Sets the status of session `session_id`; `NotFound` when there is none.
    pub fn update_status(&mut self, session_id: &str, status: WechatQRStatus) -> (r: Result<bool, AppError>)
        requires
            old(self).wf(),
        ensures
            final(self).wf(),
            r is Ok <==> old(self).sessions_view().dom().contains(session_id@),
            match r {
                Ok(b) => b && final(self).sessions_view() == old(self).sessions_view().insert(
                    session_id@,
                    with_status(old(self).sessions_view()[session_id@], status@),
                ),
                Err(e) => e is NotFound && e.message() == session_not_found(session_id@)
                    && final(self).sessions_view() == old(self).sessions_view(),
            },
    {
        match self.find(session_id) {
            Some(i) => {
                self.set_status(i, status);
                Ok(true)
            },
            None => Err(AppError::NotFound(concat3("QR session ", session_id, " not found"))),
        }
    }

    /// The status of session `session_id`, marking it expired first when it was waiting
    /// and its deadline is before the clock reading `now`; `NotFound` when there is none.
    pub fn check_status_at(&mut self, session_id: &str, now: i64) -> (r: Result<WechatQRStatus, AppError>)
        requires
            old(self).wf(),
        ensures
            final(self).wf(),
            r is Ok <==> old(self).sessions_view().dom().contains(session_id@),
            match r {
                Ok(st) => {
                    let s = old(self).sessions_view()[session_id@];
                    &&& st@ == checked_status(s.status, s.expires_at, now)
                    &&& final(self).sessions_view() == old(self).sessions_view().insert(session_id@, with_status(s, st@))
                },
                Err(e) => e is NotFound && e.message() == session_not_found(session_id@)
                    && final(self).sessions_view() == old(self).sessions_view(),
            },
    {
        match self.find(session_id) {
            Some(i) => {
                let waiting = match self.sessions[i].status {
                    WechatQRStatus::Wait => true,
                    _ => false,
                };
                if waiting && now > self.sessions[i].expires_at {
                    self.set_status(i, WechatQRStatus::Expired);
                } else {
                    let st = self.sessions[i].status.clone();
                    self.set_status(i, st);
                }
                let st = self.sessions[i].status.clone();
                proof {
                    lemma_map_of_index(self.entries(), i as int);
                }
                Ok(st)
            },
            None => Err(AppError::NotFound(concat3("QR session ", session_id, " not found"))),
        }
    }

    /// The status of session `session_id`, checked against the clock.
    pub fn check_status(&mut self, session_id: &str) -> (r: Result<WechatQRStatus, AppError>)
        requires
            old(self).wf(),
        ensures
            final(self).wf(),
            r is Ok <==> old(self).sessions_view().dom().contains(session_id@),
            match r {
                Ok(st) => {
                    let s = old(self).sessions_view()[session_id@];
                    &&& (st@ == s.status || (s.status is Wait && st@ is Expired))
                    &&& final(self).sessions_view() == old(self).sessions_view().insert(session_id@, with_status(s, st@))
                },
                Err(e) => e is NotFound && final(self).sessions_view() == old(self).sessions_view(),
            },
    {
        let now = now_timestamp();
        self.check_status_at(session_id, now)
    }

    /// Marks a waiting session scanned; `Ok(false)` and no change in any other status;
    /// `NotFound` when there is none.
    pub fn simulate_scan(&mut self, session_id: &str) -> (r: Result<bool, AppError>)
        requires
            old(self).wf(),
        ensures
            final(self).wf(),
            r is Ok <==> old(self).sessions_view().dom().contains(session_id@),
            match r {
                Ok(b) => {
                    let s = old(self).sessions_view()[session_id@];
                    &&& b == (s.status is Wait)
                    &&& b ==> final(self).sessions_view() == old(self).sessions_view().insert(session_id@, with_status(s, QRStatusView::Scanned))
                    &&& !b ==> final(self).sessions_view() == old(self).sessions_view()
                },
                Err(e) => e is NotFound && e.message() == session_not_found(session_id@)
                    && final(self).sessions_view() == old(self).sessions_view(),
            },
    {
        match self.find(session_id) {
            Some(i) => {
                let waiting = match self.sessions[i].status {
                    WechatQRStatus::Wait => true,
                    _ => false,
                };
                if waiting {
                    self.set_status(i, WechatQRStatus::Scanned);
                    Ok(true)
                } else {
                    Ok(false)
                }
            },
            None => Err(AppError::NotFound(concat3("QR session ", session_id, " not found"))),
        }
    }

    /// Marks a scanned session confirmed; `Ok(false)` and no change in any other status;
    /// `NotFound` when there is none.
    pub fn simulate_confirm(&mut self, session_id: &str) -> (r: Result<bool, AppError>)
        requires
            old(self).wf(),
        ensures
            final(self).wf(),
            r is Ok <==> old(self).sessions_view().dom().contains(session_id@),
            match r {
                Ok(b) => {
                    let s = old(self).sessions_view()[session_id@];
                    &&& b == (s.status is Scanned)
                    &&& b ==> final(self).sessions_view() == old(self).sessions_view().insert(session_id@, with_status(s, QRStatusView::Confirmed))
                    &&& !b ==> final(self).sessions_view() == old(self).sessions_view()
                },
                Err(e) => e is NotFound && e.message() == session_not_found(session_id@)
                    && final(self).sessions_view() == old(self).sessions_view(),
            },
    {
        match self.find(session_id) {
            Some(i) => {
                let scanned = match self.sessions[i].status {
                    WechatQRStatus::Scanned => true,
                    _ => false,
                };
                if scanned {
                    self.set_status(i, WechatQRStatus::Confirmed);
                    Ok(true)
                } else {
                    Ok(false)
                }
            },
            None => Err(AppError::NotFound(concat3("QR session ", session_id, " not found"))),
        }
    }

    /// Drops every session whose deadline is before the clock reading `now` and returns
    /// their identifiers, so that their images can be removed.
    pub fn cleanup_expired_at(&mut self, now: i64) -> (removed: Vec<String>)
        requires
            old(self).wf(),
        ensures
            final(self).wf(),
            final(self).sessions_view() == restrict_where(old(self).sessions_view(), still_valid(now)),
            forall|k: Seq<char>| old(self).sessions_view().dom().contains(k) && !still_valid(now)(old(self).sessions_view()[k])
                ==> #[trigger] lists_id(removed@, k),
            forall|i: int| 0 <= i < removed@.len() ==> old(self).sessions_view().dom().contains(#[trigger] removed@[i]@)
                && !still_valid(now)(old(self).sessions_view()[removed@[i]@]),
    {
        let ghost es = self.entries();
        let ghost p = still_valid(now);
        let mut kept: Vec<WechatQRSession> = Vec::new();
        let mut removed: Vec<String> = Vec::new();
        let mut i: usize = 0;
        proof {
            assert(es.take(0).filter(value_pred(p)) =~= Seq::<(Seq<char>, QRSessionView)>::empty()) by {
                reveal(Seq::filter);
            }
            assert(kept@.map_values(|x: WechatQRSession| (x.id@, x@)) =~= Seq::<(Seq<char>, QRSessionView)>::empty());
        }
        while i < self.sessions.len()
            invariant
                i <= self.sessions@.len(),
                es == self.entries(),
                self.wf(),
                p == still_valid(now),
                kept@.map_values(|x: WechatQRSession| (x.id@, x@)) == es.take(i as int).filter(value_pred(p)),
                forall|j: int| 0 <= j < i && !p(es[j].1) ==> #[trigger] lists_id(removed@, es[j].0),
                forall|j: int| 0 <= j < removed@.len() ==> #[trigger] came_from(es, p, i as int, removed@[j]@),
            decreases self.sessions.len() - i,
        {
            let ghost before_kept = kept@;
            let ghost before_removed = removed@;
            proof {
                assert(es.take(i + 1) =~= es.take(i as int).push(es[i as int]));
                es.take(i as int).lemma_filter_push(es[i as int], value_pred(p));
                assert(es[i as int] == (self.sessions@[i as int].id@, self.sessions@[i as int]@));
            }
            if now > self.sessions[i].expires_at {
                let id = self.sessions[i].id.clone();
                removed.push(id);
                proof {
                    assert(removed@ == before_removed.push(id));
                    assert(removed@[before_removed.len() as int]@ == es[i as int].0);
                    assert forall|j: int| 0 <= j < i + 1 && !p(es[j].1) implies #[trigger] lists_id(removed@, es[j].0) by {
                        if j < i {
                            assert(lists_id(before_removed, es[j].0));
                            let k = choose|k: int| 0 <= k < before_removed.len() && #[trigger] before_removed[k]@ == es[j].0;
                            assert(removed@[k] == before_removed[k]);
                        } else {
                            assert(removed@[before_removed.len() as int]@ == es[j].0);
                        }
                    }
                    assert forall|j: int| 0 <= j < removed@.len() implies #[trigger] came_from(es, p, i + 1, removed@[j]@) by {
                        if j < before_removed.len() {
                            assert(removed@[j] == before_removed[j]);
                            assert(came_from(es, p, i as int, before_removed[j]@));
                            let k = choose|k: int| 0 <= k < i && es[k].0 == before_removed[j]@ && !p(es[k].1);
                        } else {
                            assert(removed@[j]@ == es[i as int].0);
                        }
                    }
                }
            } else {
                let x = self.sessions[i].clone();
                kept.push(x);
                proof {
                    assert forall|j: int| 0 <= j < removed@.len() implies #[trigger] came_from(es, p, i + 1, removed@[j]@) by {
                        assert(came_from(es, p, i as int, removed@[j]@));
                        let k = choose|k: int| 0 <= k < i && es[k].0 == removed@[j]@ && !p(es[k].1);
                    }
                    assert(kept@ == before_kept.push(x));
                    assert(kept@.map_values(|x: WechatQRSession| (x.id@, x@)) =~= before_kept.map_values(|x: WechatQRSession| (x.id@, x@)).push(es[i as int]));
                }
            }
            i = i + 1;
        }
        proof {
            assert(es.take(es.len() as int) =~= es);
            lemma_map_of_filter(es, p);
        }
        self.sessions = kept;
        proof {
            assert forall|k: Seq<char>| old(self).sessions_view().dom().contains(k) && !p(old(self).sessions_view()[k])
                implies #[trigger] lists_id(removed@, k) by {
                let j = choose|j: int| 0 <= j < es.len() && es[j].0 == k;
                lemma_map_of_index(es, j);
            }
            assert forall|j: int| 0 <= j < removed@.len() implies old(self).sessions_view().dom().contains(#[trigger] removed@[j]@)
                && !p(old(self).sessions_view()[removed@[j]@]) by {
                assert(came_from(es, p, es.len() as int, removed@[j]@));
                let k = choose|k: int| 0 <= k < es.len() && es[k].0 == removed@[j]@ && !p(es[k].1);
                lemma_map_of_index(es, k);
            }
        }
        removed
    }

    /// Drops every session whose deadline has passed by the clock and returns their
    /// identifiers.
    pub fn cleanup_expired(&mut self) -> (removed: Vec<String>)
        requires
            old(self).wf(),
        ensures
            final(self).wf(),
            exists|now: i64| final(self).sessions_view() == #[trigger] restrict_where(old(self).sessions_view(), still_valid(now)),
    {
        let now = now_timestamp();
        self.cleanup_expired_at(now)
    }
}

// ----- Rendering the code -----

/// The side, in pixels, below which a rendered code is not drawn.
pub const QR_MIN_SIDE: u32 = 256;

/// What went wrong turning an SVG picture into PNG bytes.
#[derive(Debug)]
pub enum SvgFailure {
    /// The text is not an SVG picture usvg can read; usvg's message.
    Parse(String),
    /// No pixel buffer of the picture's size could be made.
    Pixmap,
    /// The pixels did not fill an image of the picture's size.
    Buffer,
    /// The PNG encoder failed; its message.
    Encode(String),
}

/// The value of an `SvgFailure`.
pub enum SvgFailureView {
    Parse(Seq<char>),
    Pixmap,
    Buffer,
    Encode(Seq<char>),
}

impl View for SvgFailure {
    type V = SvgFailureView;

    open spec fn view(&self) -> SvgFailureView {
        match self {
            SvgFailure::Parse(m) => SvgFailureView::Parse(m@),
            SvgFailure::Pixmap => SvgFailureView::Pixmap,
            SvgFailure::Buffer => SvgFailureView::Buffer,
            SvgFailure::Encode(m) => SvgFailureView::Encode(m@),
        }
    }
}

/// The SVG picture of the QR code for `content` (at error correction level M, each
/// side at least the given number of pixels), or the qrcode crate's message when the
/// content cannot be encoded.
pub uninterp spec fn qr_svg(content: Seq<char>, min_width: u32, min_height: u32) -> Result<Seq<char>, Seq<char>>;

/// The largest side asked of the QR renderer: below it the renderer's `u32` arithmetic on
/// sides and module sizes (at most 185 modules across) cannot overflow.
pub const QR_MAX_SIDE: u32 = 65536;

/// `qrcode::QrCode::new` on the content's bytes, rendered with `render::<svg::Color>()`,
/// `min_dimensions` and `build`. The result is named `qr_svg` of the content and sides.
/// The picture is an XML header, an `svg` element, a `rect` and a `path` of moves and
/// lines (the content is not written into it), so it mentions no image.
/// Sides above `QR_MAX_SIDE`, on which the renderer's arithmetic overflows, are left out.
#[verifier::external_body]
fn qr_svg_text(content: &str, min_width: u32, min_height: u32) -> (r: Result<String, String>)
    requires
        min_width <= QR_MAX_SIDE,
        min_height <= QR_MAX_SIDE,
    ensures
        qr_svg(content@, min_width, min_height) == match r {
            Ok(s) => Ok(s@),
            Err(e) => Err(e@),
        },
        r is Ok ==> !mentions_image(r->Ok_0@),
{
    let code = qrcode::QrCode::new(content.as_bytes()).map_err(|e| e.to_string())?;
    Ok(code.render::<qrcode::render::svg::Color>().min_dimensions(min_width, min_height).build())
}

/// Whether an SVG text mentions an image (an `image` or `feImage` element): only such
/// elements make usvg read a file.
pub open spec fn mentions_image(svg: Seq<char>) -> bool {
    seq_contains(svg, "image"@) || seq_contains(svg, "Image"@)
}

/// The SVG picture drawn by resvg from an SVG text that mentions no image: its width and
/// height in pixels and its RGBA pixels.
pub uninterp spec fn svg_rgba(svg: Seq<char>) -> Result<(u32, u32, Seq<u8>), SvgFailureView>;

/// `usvg::Tree::from_str` with usvg's default options, a `tiny_skia::Pixmap` of the
/// tree's size, and `resvg::render` into it. The pixels hold four bytes per pixel. For
/// a text that mentions no image the result is named `svg_rgba` of the text; for one
/// that does, usvg may read the referenced files, and the result is not named.
#[verifier::external_body]
fn svg_pixels(svg: &str) -> (r: Result<(u32, u32, Vec<u8>), SvgFailure>)
    ensures
        !mentions_image(svg@) ==> svg_rgba(svg@) == match r {
            Ok((w, h, px)) => Ok((w, h, px@)),
            Err(f) => Err(f@),
        },
        r matches Ok((w, h, px)) ==> px@.len() == 4 * w * h,
{
    let opt = Options::default();
    let tree = Tree::from_str(svg, &opt).map_err(|e| SvgFailure::Parse(e.to_string()))?;
    let size = tree.size().to_int_size();
    let mut pixmap = Pixmap::new(size.width(), size.height()).ok_or(SvgFailure::Pixmap)?;
    resvg::render(&tree, Transform::default(), &mut pixmap.as_mut());
    Ok((pixmap.width(), pixmap.height(), pixmap.data().to_vec()))
}

/// The PNG encoding of an RGBA image of the given size.
pub uninterp spec fn rgba_png(width: u32, height: u32, pixels: Seq<u8>) -> Result<Seq<u8>, SvgFailureView>;

/// `image::RgbaImage::from_raw` and `write_to` in the PNG format. The result is named
/// `rgba_png` of the size and pixels.
#[verifier::external_body]
fn png_bytes(width: u32, height: u32, pixels: Vec<u8>) -> (r: Result<Vec<u8>, SvgFailure>)
    ensures
        rgba_png(width, height, pixels@) == match r {
            Ok(b) => Ok(b@),
            Err(f) => Err(f@),
        },
{
    let img = image::RgbaImage::from_raw(width, height, pixels).ok_or(SvgFailure::Buffer)?;
    let mut png = Vec::new();
    img.write_to(&mut std::io::Cursor::new(&mut png), image::ImageFormat::Png).map_err(|e| SvgFailure::Encode(e.to_string()))?;
    Ok(png)
}

/// The message for a failed conversion to PNG.
pub open spec fn svg_failure_message(f: SvgFailureView) -> Seq<char> {
    match f {
        SvgFailureView::Parse(e) => "Failed to parse SVG: "@ + e,
        SvgFailureView::Pixmap => "Failed to create pixmap"@,
        SvgFailureView::Buffer => "Failed to create image buffer"@,
        SvgFailureView::Encode(e) => "Failed to encode PNG: "@ + e,
    }
}

/// The PNG picture of an SVG picture, or why there is none.
pub open spec fn svg_png(svg: Seq<char>) -> Result<Seq<u8>, SvgFailureView> {
    match svg_rgba(svg) {
        Ok((w, h, px)) => rgba_png(w, h, px),
        Err(f) => Err(f),
    }
}

/// The PNG picture of the QR code for `content`, or the message of what failed.
pub open spec fn qr_png(content: Seq<char>) -> Result<Seq<u8>, Seq<char>> {
    match qr_svg(content, QR_MIN_SIDE, QR_MIN_SIDE) {
        Err(e) => Err("Failed to generate QR code: "@ + e),
        Ok(svg) => match svg_png(svg) {
            Ok(b) => Ok(b),
            Err(f) => Err("Failed to convert SVG to PNG: "@ + ("Internal error: "@ + svg_failure_message(f))),
        },
    }
}

/// An SVG picture as PNG bytes. For a picture that mentions an image, which usvg may
/// read from a file, only the form of the outcome is stated.
pub fn svg_to_png(svg: &str) -> (r: Result<Vec<u8>, AppError>)
    ensures
        !mentions_image(svg@) ==> match r {
            Ok(b) => svg_png(svg@) == Ok::<Seq<u8>, SvgFailureView>(b@),
            Err(e) => svg_png(svg@) is Err && e is Internal
                && e->Internal_0@ == svg_failure_message(svg_png(svg@)->Err_0),
        },
        match r {
            Ok(b) => exists|w: u32, h: u32, px: Seq<u8>| #![trigger rgba_png(w, h, px)] px.len() == 4 * w * h && rgba_png(w, h, px) == Ok::<Seq<u8>, SvgFailureView>(b@),
            Err(e) => e is Internal && exists|f: SvgFailureView| #[trigger] svg_failure_message(f) == e->Internal_0@,
        },
{
    proof {
        reveal_strlit("");
    }
    let out = match svg_pixels(svg) {
        Ok((w, h, px)) => {
            let ghost pv = px@;
            let o = png_bytes(w, h, px);
            proof {
                if o is Ok {
                    assert(pv.len() == 4 * w * h && rgba_png(w, h, pv) == Ok::<Seq<u8>, SvgFailureView>(o->Ok_0@));
                    assert(exists|w2: u32, h2: u32, p2: Seq<u8>| #![trigger rgba_png(w2, h2, p2)] p2.len() == 4 * w2 * h2 && rgba_png(w2, h2, p2) == Ok::<Seq<u8>, SvgFailureView>(o->Ok_0@));
                }
            }
            o
        },
        Err(f) => Err(f),
    };
    let ghost fv = match &out {
        Ok(_) => SvgFailureView::Pixmap,
        Err(f) => f@,
    };
    let r = match out {
        Ok(b) => Ok(b),
        Err(SvgFailure::Parse(e)) => Err(AppError::Internal(concat3("Failed to parse SVG: ", e.as_str(), ""))),
        Err(SvgFailure::Pixmap) => Err(AppError::Internal(str_to_string("Failed to create pixmap"))),
        Err(SvgFailure::Buffer) => Err(AppError::Internal(str_to_string("Failed to create image buffer"))),
        Err(SvgFailure::Encode(e)) => Err(AppError::Internal(concat3("Failed to encode PNG: ", e.as_str(), ""))),
    };
    proof {
        if r is Err {
            assert(svg_failure_message(fv) == r->Err_0->Internal_0@);
        }
    }
    r
}

/// The PNG picture of the QR code for `content`.
pub fn generate_qr_png(content: &str) -> (r: Result<Vec<u8>, AppError>)
    ensures
        match r {
            Ok(b) => qr_png(content@) == Ok::<Seq<u8>, Seq<char>>(b@),
            Err(e) => e is Internal && qr_png(content@) == Err::<Seq<u8>, Seq<char>>(e->Internal_0@),
        },
{
    proof {
        reveal_strlit("");
    }
    let svg = match qr_svg_text(content, QR_MIN_SIDE, QR_MIN_SIDE) {
        Ok(s) => s,
        Err(e) => {
            return Err(AppError::Internal(concat3("Failed to generate QR code: ", e.as_str(), "")));
        },
    };
    match svg_to_png(svg.as_str()) {
        Ok(b) => {
            Ok(b)
        },
        Err(e) => {
            let mut m = str_to_string("Failed to convert SVG to PNG: ");
            let t = e.to_text();
            crate::text::push_str(&mut m, t.as_str());
            assert(m@ =~= "Failed to convert SVG to PNG: "@ + ("Internal error: "@ + e->Internal_0@));
            Err(AppError::Internal(m))
        },
    }
}

/// The name of the file a session's picture is stored in: its identifier and `.png`.
pub fn png_file_name(id: &str) -> (r: String)
    ensures
        r@ == id@ + ".png"@,
{
    proof {
        reveal_strlit("");
    }
    concat3(id, ".png", "")
}

} // verus!
