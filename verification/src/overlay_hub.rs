//! The overlay hub: drawings over the stream, published per audience and id,
//! that may expire after a time to live.
//!
//! What an overlay draws (its position, shape and style) is carried as an
//! opaque `drawing`; the hub reads only the overlay's id, audience, order and
//! time to live.

use vstd::prelude::*;
use vstd::utf8::encode_utf8;
use crate::bytes_order::{
    bytes_less, bytes_lt, eq_ignore_ascii_case, lemma_bytes_lt_irreflexive, lemma_bytes_lt_total,
    lemma_bytes_lt_transitive, lower_bytes,
};
use crate::custom_host::{
    audience_before, audience_rank, audience_text, opt_text, same_audience, viewer_sees,
    CustomHostPanelAudience,
};
use crate::palette_config::{is_blank, is_blank_spec};

verus! {

/// The coordinates an overlay is placed in.
#[derive(Clone, Copy, Debug, PartialEq, Eq, Structural)]
pub enum OverlayCoordinateSpace {
    /// Pixels of the stream.
    StreamPixels,
    /// Fractions of the stream's width and height.
    NormalizedStream,
}

impl OverlayCoordinateSpace {
    /// The name sent to the browser.
    pub fn as_json_str(self) -> (s: &'static str)
        ensures
            s@ == (match self {
                OverlayCoordinateSpace::StreamPixels => "StreamPixels"@,
                OverlayCoordinateSpace::NormalizedStream => "NormalizedStream"@,
            }),
    {
        match self {
            OverlayCoordinateSpace::StreamPixels => "StreamPixels",
            OverlayCoordinateSpace::NormalizedStream => "NormalizedStream",
        }
    }
}

/// An overlay drawn over the stream.
#[derive(Debug)]
pub struct CustomHostOverlayElement<T> {
    pub id: String,
    pub audience: CustomHostPanelAudience,
    pub order: i32,
    /// How long the overlay stays after it is published, in milliseconds.
    pub ttl_ms: Option<u64>,
    /// What the overlay draws.
    pub drawing: T,
}

impl<T> CustomHostOverlayElement<T> {
    /// The overlay shown only to the viewer with `identity`.
    pub fn for_viewer_identity(self, identity: String) -> (r: Self)
        ensures
            r == (CustomHostOverlayElement {
                audience: CustomHostPanelAudience::ViewerIdentity(identity),
                ..self
            }),
    {
        CustomHostOverlayElement { audience: CustomHostPanelAudience::ViewerIdentity(identity), ..self }
    }

    /// The overlay shown only to viewers named `name` (without ASCII case).
    pub fn for_viewer_name(self, name: String) -> (r: Self)
        ensures
            r == (CustomHostOverlayElement { audience: CustomHostPanelAudience::ViewerName(name), ..self }),
    {
        CustomHostOverlayElement { audience: CustomHostPanelAudience::ViewerName(name), ..self }
    }
}

/// `b` is a copy of `a`: the same fields, with a clone of its drawing.
pub open spec fn overlay_copy<T: Clone>(a: CustomHostOverlayElement<T>, b: CustomHostOverlayElement<T>) -> bool {
    &&& b == (CustomHostOverlayElement { drawing: b.drawing, ..a })
    &&& cloned(a.drawing, b.drawing)
}

impl<T: Clone> Clone for CustomHostOverlayElement<T> {
    fn clone(&self) -> (r: Self)
        ensures
            overlay_copy(*self, r),
    {
        CustomHostOverlayElement {
            id: self.id.clone(),
            audience: self.audience.clone(),
            order: self.order,
            ttl_ms: self.ttl_ms,
            drawing: self.drawing.clone(),
        }
    }
}

/// An overlay as the hub stores it: the element and when it was published.
#[derive(Debug)]
pub struct StoredOverlay<T> {
    pub element: CustomHostOverlayElement<T>,
    pub created_at_ms: u64,
}

/// Overlays are stored under their audience and id.
pub open spec fn overlay_same_key<T>(a: CustomHostOverlayElement<T>, b: CustomHostOverlayElement<T>) -> bool {
    same_audience(a.audience, b.audience) && a.id@ == b.id@
}

/// Overlay order: by order, then id, then audience key.
pub open spec fn overlay_before<T>(a: CustomHostOverlayElement<T>, b: CustomHostOverlayElement<T>) -> bool {
    let (ia, ib) = (encode_utf8(a.id@), encode_utf8(b.id@));
    ||| a.order < b.order
    ||| a.order == b.order && bytes_lt(ia, ib)
    ||| a.order == b.order && ia == ib && audience_before(a.audience, b.audience)
}

/// Overlay order is transitive.
pub proof fn lemma_overlay_before_transitive<T>(
    a: CustomHostOverlayElement<T>,
    b: CustomHostOverlayElement<T>,
    c: CustomHostOverlayElement<T>,
)
    requires
        overlay_before(a, b),
        overlay_before(b, c),
    ensures
        overlay_before(a, c),
{
    let (ia, ib, ic) = (encode_utf8(a.id@), encode_utf8(b.id@), encode_utf8(c.id@));
    if bytes_lt(ia, ib) && bytes_lt(ib, ic) {
        lemma_bytes_lt_transitive(ia, ib, ic);
    }
    if audience_before(a.audience, b.audience) && audience_before(b.audience, c.audience) {
        if audience_rank(a.audience) == audience_rank(b.audience) && audience_rank(b.audience)
            == audience_rank(c.audience) {
            lemma_bytes_lt_transitive(audience_text(a.audience), audience_text(b.audience), audience_text(c.audience));
        }
    }
}

/// Overlay order is asymmetric.
pub proof fn lemma_overlay_before_asymmetric<T>(a: CustomHostOverlayElement<T>, b: CustomHostOverlayElement<T>)
    requires
        overlay_before(a, b),
    ensures
        !overlay_before(b, a),
{
    if overlay_before(b, a) {
        lemma_overlay_before_transitive(a, b, a);
        lemma_bytes_lt_irreflexive(encode_utf8(a.id@));
        lemma_bytes_lt_irreflexive(audience_text(a.audience));
    }
}

/// Of two overlays under different keys, one sorts before the other.
pub proof fn lemma_overlay_before_total<T>(a: CustomHostOverlayElement<T>, b: CustomHostOverlayElement<T>)
    requires
        !overlay_same_key(a, b),
    ensures
        overlay_before(a, b) || overlay_before(b, a),
{
    lemma_bytes_lt_total(encode_utf8(a.id@), encode_utf8(b.id@));
    lemma_bytes_lt_total(audience_text(a.audience), audience_text(b.audience));
    if encode_utf8(a.id@) == encode_utf8(b.id@) {
        vstd::utf8::encode_utf8_decode_utf8(a.id@);
        vstd::utf8::encode_utf8_decode_utf8(b.id@);
    }
}

/// The overlays are in overlay order, each under its own key.
pub open spec fn overlays_sorted<T>(s: Seq<StoredOverlay<T>>) -> bool {
    forall|i: int, j: int|
        0 <= i < j < s.len() ==> overlay_before(s[i].element, s[j].element) && !overlay_same_key(
            s[i].element,
            s[j].element,
        )
}

/// `a + b`, or `u64::MAX` where that does not fit.
pub open spec fn saturating_sum(a: u64, b: u64) -> u64 {
    if a + b > u64::MAX {
        u64::MAX
    } else {
        (a + b) as u64
    }
}

/// Whether an overlay is still shown at time `now_ms`: it has no time to
/// live, or its time to live has not run out.
pub open spec fn alive_at<T>(now_ms: u64) -> spec_fn(StoredOverlay<T>) -> bool {
    |o: StoredOverlay<T>|
        match o.element.ttl_ms {
            None => true,
            Some(ttl) => now_ms < saturating_sum(o.created_at_ms, ttl),
        }
}

/// Whether a viewer with this identity and name sees the overlay.
pub open spec fn overlay_visible<T>(identity: Option<Seq<char>>, name: Option<Seq<char>>) -> spec_fn(StoredOverlay<T>) -> bool {
    |o: StoredOverlay<T>| viewer_sees(o.element.audience, identity, name)
}

/// Whether an overlay has another id than `id`.
pub open spec fn overlay_id_differs<T>(id: Seq<char>) -> spec_fn(StoredOverlay<T>) -> bool {
    |o: StoredOverlay<T>| o.element.id@ != id
}

/// Whether an overlay is stored under another key than `audience` and `id`.
pub open spec fn overlay_key_differs<T>(audience: CustomHostPanelAudience, id: Seq<char>) -> spec_fn(StoredOverlay<T>) -> bool {
    |o: StoredOverlay<T>| !(same_audience(o.element.audience, audience) && o.element.id@ == id)
}

/// `s` with `e` in its place in overlay order, replacing the overlay under the
/// same key.
pub open spec fn overlay_inserted<T>(s: Seq<StoredOverlay<T>>, e: StoredOverlay<T>) -> Seq<StoredOverlay<T>> {
    s.filter(|o: StoredOverlay<T>| overlay_before(o.element, e.element) && !overlay_same_key(o.element, e.element))
        + seq![e] + s.filter(
        |o: StoredOverlay<T>| overlay_before(e.element, o.element) && !overlay_same_key(o.element, e.element),
    )
}

/// The overlays after publishing `e` at time `now_ms`: expired overlays are
/// dropped first; an overlay with a blank id is not stored.
pub open spec fn after_overlay_publish<T>(
    s: Seq<StoredOverlay<T>>,
    e: CustomHostOverlayElement<T>,
    now_ms: u64,
) -> Seq<StoredOverlay<T>> {
    if is_blank_spec(encode_utf8(e.id@)) {
        s
    } else {
        overlay_inserted(s.filter(alive_at(now_ms)), StoredOverlay { element: e, created_at_ms: now_ms })
    }
}

/// Milliseconds since the Unix epoch, as `std::time::SystemTime` reports
/// them, or `None` when the clock is before the epoch.
#[verifier::external_body]
fn unix_time_millis() -> (r: Option<u128>) {
    match std::time::SystemTime::now().duration_since(std::time::UNIX_EPOCH) {
        Ok(elapsed) => Some(elapsed.as_millis()),
        Err(_) => None,
    }
}

/// Milliseconds since the epoch from a clock reading: 0 for a reading before
/// the epoch (`None`), the count cut at `u64::MAX` otherwise.
pub open spec fn clock_millis(reading: Option<u128>) -> u64 {
    match reading {
        Some(ms) => if ms > u64::MAX {
            u64::MAX
        } else {
            ms as u64
        },
        None => 0,
    }
}

/// Milliseconds since the epoch from a clock reading (see [`clock_millis`]).
pub fn millis_from_clock(reading: Option<u128>) -> (ms: u64)
    ensures
        ms == clock_millis(reading),
{
    match reading {
        Some(ms) => if ms > u64::MAX as u128 {
            u64::MAX
        } else {
            ms as u64
        },
        None => 0,
    }
}

/// The current time in milliseconds since the Unix epoch: 0 before the
/// epoch, `u64::MAX` beyond it. The clock reading itself is not stated; what
/// is done with it is [`millis_from_clock`].
pub fn current_time_millis() -> u64 {
    millis_from_clock(unix_time_millis())
}

enum OverlayFilter<'a> {
    Alive(u64),
    OtherIds(&'a str),
    OtherKey(&'a CustomHostPanelAudience, &'a str),
}

spec fn overlay_keeps<T>(f: OverlayFilter, o: StoredOverlay<T>) -> bool {
    match f {
        OverlayFilter::Alive(now) => alive_at(now)(o),
        OverlayFilter::OtherIds(id) => overlay_id_differs(id@)(o),
        OverlayFilter::OtherKey(audience, id) => overlay_key_differs(*audience, id@)(o),
    }
}

spec fn overlay_keep_pred<T>(f: OverlayFilter) -> spec_fn(StoredOverlay<T>) -> bool {
    |o: StoredOverlay<T>| overlay_keeps(f, o)
}

fn text_bytes(s: &String) -> (b: &[u8])
    ensures
        b@ == encode_utf8(s@),
{
    s.as_str().as_bytes()
}

fn overlay_keeps_exec<T>(f: &OverlayFilter, o: &StoredOverlay<T>) -> (r: bool)
    ensures
        r == overlay_keeps(*f, *o),
{
    match f {
        OverlayFilter::Alive(now) => match o.element.ttl_ms {
            None => true,
            Some(ttl) => *now < o.created_at_ms.saturating_add(ttl),
        },
        OverlayFilter::OtherIds(id) => !crate::text::str_eq(o.element.id.as_str(), id),
        OverlayFilter::OtherKey(audience, id) => !(o.element.audience.same_key_as(audience)
            && crate::text::str_eq(o.element.id.as_str(), id)),
    }
}

fn elements_same_key<T>(a: &CustomHostOverlayElement<T>, b: &CustomHostOverlayElement<T>) -> (r: bool)
    ensures
        r == overlay_same_key(*a, *b),
{
    a.audience.same_key_as(&b.audience) && crate::text::str_eq(a.id.as_str(), b.id.as_str())
}

fn elements_before<T>(a: &CustomHostOverlayElement<T>, b: &CustomHostOverlayElement<T>) -> (r: bool)
    ensures
        r == overlay_before(*a, *b),
{
    if a.order != b.order {
        return a.order < b.order;
    }
    let (ia, ib) = (text_bytes(&a.id), text_bytes(&b.id));
    if !crate::text::bytes_eq(ia, ib) {
        return bytes_less(ia, ib);
    }
    proof {
        lemma_bytes_lt_irreflexive(ia@);
    }
    a.audience.key_before(&b.audience)
}

/// Keeps the overlays that pass `f`, in order.
fn filter_overlays<T>(entries: Vec<StoredOverlay<T>>, f: &OverlayFilter) -> (out: Vec<StoredOverlay<T>>)
    requires
        overlays_sorted(entries@),
    ensures
        out@ == entries@.filter(overlay_keep_pred::<T>(*f)),
        overlays_sorted(out@),
{
    let ghost s = entries@;
    let mut out: Vec<StoredOverlay<T>> = Vec::new();
    let ghost mut idx: Seq<int> = Seq::empty();
    assert(s.take(0) =~= Seq::<StoredOverlay<T>>::empty());
    assert(Seq::<StoredOverlay<T>>::empty().filter(overlay_keep_pred::<T>(*f)) =~= Seq::<StoredOverlay<T>>::empty()) by {
        reveal(Seq::filter);
    }
    for o in iter: entries.into_iter()
        invariant
            iter.seq() == s,
            overlays_sorted(s),
            out@ == s.take(iter.index() as int).filter(overlay_keep_pred::<T>(*f)),
            idx.len() == out@.len(),
            forall|k: int| 0 <= k < idx.len() ==> 0 <= #[trigger] idx[k] < iter.index(),
            forall|k: int, l: int| 0 <= k < l < idx.len() ==> #[trigger] idx[k] < #[trigger] idx[l],
            forall|k: int| 0 <= k < idx.len() ==> out@[k] == s[#[trigger] idx[k]],
    {
        let ghost i = iter.index() as int;
        proof {
            assert(s.take(i + 1) =~= s.take(i).push(s[i]));
            s.take(i).lemma_filter_push(s[i], overlay_keep_pred::<T>(*f));
        }
        if overlay_keeps_exec(f, &o) {
            out.push(o);
            proof {
                idx = idx.push(i);
            }
        }
    }
    assert(s.take(s.len() as int) =~= s);
    proof {
        assert forall|k: int, l: int| 0 <= k < l < out@.len() implies overlay_before(
            out@[k].element,
            out@[l].element,
        ) && !overlay_same_key(out@[k].element, out@[l].element) by {
            assert(idx[k] < idx[l]);
            assert(out@[k] == s[idx[k]]);
            assert(out@[l] == s[idx[l]]);
        }
    }
    out
}

/// `entries` with `e` in its place in overlay order, replacing the overlay
/// under the same key.
fn insert_overlay<T>(entries: Vec<StoredOverlay<T>>, e: StoredOverlay<T>) -> (out: Vec<StoredOverlay<T>>)
    requires
        overlays_sorted(entries@),
    ensures
        out@ == overlay_inserted(entries@, e),
        overlays_sorted(out@),
{
    let ghost s = entries@;
    let ghost pa = |o: StoredOverlay<T>| overlay_before(o.element, e.element) && !overlay_same_key(o.element, e.element);
    let ghost pb = |o: StoredOverlay<T>| overlay_before(e.element, o.element) && !overlay_same_key(o.element, e.element);
    let mut before: Vec<StoredOverlay<T>> = Vec::new();
    let mut after: Vec<StoredOverlay<T>> = Vec::new();
    let ghost mut ia: Seq<int> = Seq::empty();
    let ghost mut ib: Seq<int> = Seq::empty();
    assert(s.take(0) =~= Seq::<StoredOverlay<T>>::empty());
    assert(Seq::<StoredOverlay<T>>::empty().filter(pa) =~= Seq::<StoredOverlay<T>>::empty()) by {
        reveal(Seq::filter);
    }
    assert(Seq::<StoredOverlay<T>>::empty().filter(pb) =~= Seq::<StoredOverlay<T>>::empty()) by {
        reveal(Seq::filter);
    }
    for o in iter: entries.into_iter()
        invariant
            iter.seq() == s,
            overlays_sorted(s),
            pa == (|o: StoredOverlay<T>| overlay_before(o.element, e.element) && !overlay_same_key(o.element, e.element)),
            pb == (|o: StoredOverlay<T>| overlay_before(e.element, o.element) && !overlay_same_key(o.element, e.element)),
            before@ == s.take(iter.index() as int).filter(pa),
            after@ == s.take(iter.index() as int).filter(pb),
            ia.len() == before@.len(),
            ib.len() == after@.len(),
            forall|k: int| 0 <= k < ia.len() ==> 0 <= #[trigger] ia[k] < iter.index(),
            forall|k: int| 0 <= k < ib.len() ==> 0 <= #[trigger] ib[k] < iter.index(),
            forall|k: int, l: int| 0 <= k < l < ia.len() ==> #[trigger] ia[k] < #[trigger] ia[l],
            forall|k: int, l: int| 0 <= k < l < ib.len() ==> #[trigger] ib[k] < #[trigger] ib[l],
            forall|k: int| 0 <= k < ia.len() ==> before@[k] == s[#[trigger] ia[k]] && pa(s[ia[k]]),
            forall|k: int| 0 <= k < ib.len() ==> after@[k] == s[#[trigger] ib[k]] && pb(s[ib[k]]),
    {
        let ghost i = iter.index() as int;
        proof {
            assert(s.take(i + 1) =~= s.take(i).push(s[i]));
            s.take(i).lemma_filter_push(s[i], pa);
            s.take(i).lemma_filter_push(s[i], pb);
        }
        let distinct = !elements_same_key(&o.element, &e.element);
        if distinct && elements_before(&o.element, &e.element) {
            proof {
                lemma_overlay_before_asymmetric(o.element, e.element);
            }
            before.push(o);
            proof {
                ia = ia.push(i);
            }
        } else if distinct && elements_before(&e.element, &o.element) {
            after.push(o);
            proof {
                ib = ib.push(i);
            }
        }
    }
    assert(s.take(s.len() as int) =~= s);
    let ghost a = before@;
    let ghost b = after@;
    before.push(e);
    before.append(&mut after);
    proof {
        let r = before@;
        assert(r =~= a + seq![e] + b);
        let n1 = a.len() as int;
        assert forall|i: int, j: int| 0 <= i < j < r.len() implies overlay_before(r[i].element, r[j].element)
            && !overlay_same_key(r[i].element, r[j].element) by {
            if j < n1 {
                assert(r[i] == s[ia[i]] && r[j] == s[ia[j]]);
            } else if j == n1 {
                assert(r[i] == s[ia[i]] && pa(s[ia[i]]));
            } else if i > n1 {
                assert(r[i] == s[ib[i - n1 - 1]] && r[j] == s[ib[j - n1 - 1]]);
                assert(ib[i - n1 - 1] < ib[j - n1 - 1]);
            } else if i == n1 {
                assert(r[j] == s[ib[j - n1 - 1]] && pb(s[ib[j - n1 - 1]]));
            } else {
                let x = ia[i];
                let y = ib[j - n1 - 1];
                assert(r[i] == s[x] && pa(s[x]));
                assert(r[j] == s[y] && pb(s[y]));
                lemma_overlay_before_transitive(s[x].element, e.element, s[y].element);
                if x == y {
                    lemma_overlay_before_asymmetric(s[x].element, e.element);
                } else if x < y {
                    assert(!overlay_same_key(s[x].element, s[y].element));
                } else {
                    assert(!overlay_same_key(s[y].element, s[x].element));
                }
            }
        }
    }
    before
}

/// The overlays a hub publishes to viewers.
#[derive(Debug)]
pub struct CustomHostOverlayHub<T> {
    entries: Vec<StoredOverlay<T>>,
}

impl<T> View for CustomHostOverlayHub<T> {
    type V = Seq<StoredOverlay<T>>;

    closed spec fn view(&self) -> Seq<StoredOverlay<T>> {
        self.entries@
    }
}

impl<T> CustomHostOverlayHub<T> {
    #[verifier::type_invariant]
    spec fn inv(self) -> bool {
        overlays_sorted(self.entries@)
    }
}

impl<T: Clone> CustomHostOverlayHub<T> {
    /// An empty hub.
    pub fn new() -> (hub: Self)
        ensures
            hub@ == Seq::<StoredOverlay<T>>::empty(),
    {
        CustomHostOverlayHub { entries: Vec::new() }
    }

    fn take_entries(&mut self) -> (entries: Vec<StoredOverlay<T>>)
        ensures
            entries@ == old(self)@,
            overlays_sorted(entries@),
            final(self)@ == Seq::<StoredOverlay<T>>::empty(),
    {
        proof {
            use_type_invariant(&*self);
        }
        let mut entries: Vec<StoredOverlay<T>> = Vec::new();
        std::mem::swap(&mut entries, &mut self.entries);
        entries
    }

    /// Publishes `element` at time `now_ms`: drops the overlays whose time
    /// to live ran out, then stores `element` under its audience and id,
    /// replacing what was stored under the same key. An overlay with a blank
    /// id is ignored.
    pub fn publish_at(&mut self, element: CustomHostOverlayElement<T>, now_ms: u64)
        ensures
            final(self)@ == after_overlay_publish(old(self)@, element, now_ms),
            overlays_sorted(final(self)@),
    {
        proof {
            use_type_invariant(&*self);
        }
        if is_blank(element.id.as_str()) {
            return;
        }
        let entries = self.take_entries();
        let f = OverlayFilter::Alive(now_ms);
        assert(overlay_keep_pred::<T>(f) =~= alive_at::<T>(now_ms));
        let alive = filter_overlays(entries, &f);
        self.entries = insert_overlay(alive, StoredOverlay { element, created_at_ms: now_ms });
    }

    /// Publishes `element` now (see [`Self::publish_at`]).
    pub fn publish(&mut self, element: CustomHostOverlayElement<T>)
        ensures
            exists|now_ms: u64| final(self)@ == after_overlay_publish(old(self)@, element, now_ms),
    {
        let now_ms = current_time_millis();
        self.publish_at(element, now_ms);
    }

    /// Publishes `element` now for the viewer with `identity` only.
    pub fn publish_overlay_for_viewer_identity(&mut self, element: CustomHostOverlayElement<T>, identity: String)
        ensures
            exists|now_ms: u64|
                final(self)@ == after_overlay_publish(
                    old(self)@,
                    CustomHostOverlayElement { audience: CustomHostPanelAudience::ViewerIdentity(identity), ..element },
                    now_ms,
                ),
    {
        self.publish(element.for_viewer_identity(identity));
    }

    /// Publishes `element` now for viewers named `name` only.
    pub fn publish_overlay_for_viewer_name(&mut self, element: CustomHostOverlayElement<T>, name: String)
        ensures
            exists|now_ms: u64|
                final(self)@ == after_overlay_publish(
                    old(self)@,
                    CustomHostOverlayElement { audience: CustomHostPanelAudience::ViewerName(name), ..element },
                    now_ms,
                ),
    {
        self.publish(element.for_viewer_name(name));
    }

    /// Removes the overlays with this id, for every audience.
    pub fn clear_overlay(&mut self, id: &str)
        ensures
            final(self)@ == old(self)@.filter(overlay_id_differs(id@)),
    {
        let entries = self.take_entries();
        let f = OverlayFilter::OtherIds(id);
        assert(overlay_keep_pred::<T>(f) =~= overlay_id_differs::<T>(id@));
        self.entries = filter_overlays(entries, &f);
    }

    fn clear_overlay_for_audience(&mut self, id: &str, audience: CustomHostPanelAudience)
        ensures
            final(self)@ == old(self)@.filter(overlay_key_differs(audience, id@)),
    {
        let entries = self.take_entries();
        let f = OverlayFilter::OtherKey(&audience, id);
        assert(overlay_keep_pred::<T>(f) =~= overlay_key_differs::<T>(audience, id@));
        self.entries = filter_overlays(entries, &f);
    }

    /// Removes the overlay with this id published for the viewer with `identity`.
    pub fn clear_overlay_for_viewer_identity(&mut self, id: &str, identity: String)
        ensures
            final(self)@ == old(self)@.filter(
                overlay_key_differs(CustomHostPanelAudience::ViewerIdentity(identity), id@),
            ),
    {
        self.clear_overlay_for_audience(id, CustomHostPanelAudience::ViewerIdentity(identity));
    }

    /// Removes the overlay with this id published for viewers named `name`.
    pub fn clear_overlay_for_viewer_name(&mut self, id: &str, name: String)
        ensures
            final(self)@ == old(self)@.filter(overlay_key_differs(CustomHostPanelAudience::ViewerName(name), id@)),
    {
        self.clear_overlay_for_audience(id, CustomHostPanelAudience::ViewerName(name));
    }

    /// At time `now_ms`: drops the overlays whose time to live ran out and
    /// returns copies of those a viewer with this identity and name may see,
    /// in overlay order.
    pub fn snapshot_for_viewer_at(
        &mut self,
        viewer_identity: Option<&str>,
        viewer_name: Option<&str>,
        now_ms: u64,
    ) -> (r: Vec<CustomHostOverlayElement<T>>)
        ensures
            final(self)@ == old(self)@.filter(alive_at(now_ms)),
            r@.len() == final(self)@.filter(overlay_visible(opt_text(viewer_identity), opt_text(viewer_name))).len(),
            forall|i: int|
                0 <= i < r@.len() ==> overlay_copy(
                    final(self)@.filter(overlay_visible(opt_text(viewer_identity), opt_text(viewer_name)))[i].element,
                    #[trigger] r@[i],
                ),
    {
        let entries = self.take_entries();
        let f = OverlayFilter::Alive(now_ms);
        assert(overlay_keep_pred::<T>(f) =~= alive_at::<T>(now_ms));
        self.entries = filter_overlays(entries, &f);
        let ghost s = self.entries@;
        let ghost vis = overlay_visible::<T>(opt_text(viewer_identity), opt_text(viewer_name));
        let mut r: Vec<CustomHostOverlayElement<T>> = Vec::new();
        let mut i: usize = 0;
        assert(s.take(0) =~= Seq::<StoredOverlay<T>>::empty());
        assert(Seq::<StoredOverlay<T>>::empty().filter(vis) =~= Seq::<StoredOverlay<T>>::empty()) by {
            reveal(Seq::filter);
        }
        while i < self.entries.len()
            invariant
                i <= s.len(),
                s == self.entries@,
                vis == overlay_visible::<T>(opt_text(viewer_identity), opt_text(viewer_name)),
                r@.len() == s.take(i as int).filter(vis).len(),
                forall|k: int|
                    0 <= k < r@.len() ==> overlay_copy(s.take(i as int).filter(vis)[k].element, #[trigger] r@[k]),
            decreases s.len() - i,
        {
            proof {
                assert(s.take(i + 1) =~= s.take(i as int).push(s[i as int]));
                s.take(i as int).lemma_filter_push(s[i as int], vis);
            }
            let o = &self.entries[i];
            let sees = match &o.element.audience {
                CustomHostPanelAudience::All => true,
                CustomHostPanelAudience::ViewerIdentity(id) => match viewer_identity {
                    Some(v) => crate::text::str_eq(v, id.as_str()),
                    None => false,
                },
                CustomHostPanelAudience::ViewerName(n) => match viewer_name {
                    Some(v) => eq_ignore_ascii_case(v.as_bytes(), text_bytes(n)),
                    None => false,
                },
            };
            if sees {
                r.push(o.element.clone());
            }
            i = i + 1;
        }
        assert(s.take(s.len() as int) =~= s);
        r
    }

    /// Drops the expired overlays and returns copies of those a viewer with
    /// this identity and name may see now (see [`Self::snapshot_for_viewer_at`]).
    pub fn snapshot_for_viewer(&mut self, viewer_identity: Option<&str>, viewer_name: Option<&str>) -> (r: Vec<
        CustomHostOverlayElement<T>,
    >)
        ensures
            exists|now_ms: u64|
                {
                    &&& final(self)@ == old(self)@.filter(alive_at(now_ms))
                    &&& r@.len() == final(self)@.filter(
                        overlay_visible(opt_text(viewer_identity), opt_text(viewer_name)),
                    ).len()
                    &&& forall|i: int|
                        0 <= i < r@.len() ==> overlay_copy(
                            final(self)@.filter(overlay_visible(opt_text(viewer_identity), opt_text(viewer_name)))[i].element,
                            #[trigger] r@[i],
                        )
                },
    {
        let now_ms = current_time_millis();
        self.snapshot_for_viewer_at(viewer_identity, viewer_name, now_ms)
    }
}

impl<T: Clone> Default for CustomHostOverlayHub<T> {
    fn default() -> (hub: Self)
        ensures
            hub@ == Seq::<StoredOverlay<T>>::empty(),
    {
        CustomHostOverlayHub::new()
    }
}

proof fn lemma_filter_member<A>(s: Seq<A>, pred: spec_fn(A) -> bool, x: A)
    requires
        s.filter(pred).contains(x),
    ensures
        pred(x),
        s.contains(x),
{
    let i = choose|i: int| 0 <= i < s.filter(pred).len() && s.filter(pred)[i] == x;
    s.lemma_filter_pred(pred, i);
    s.lemma_filter_contains_rev(pred, x);
}

/// An overlay just published (with a non-blank id) is stored, stamped with
/// the time of publishing.
pub proof fn lemma_published_overlay_is_stored<T>(s: Seq<StoredOverlay<T>>, e: CustomHostOverlayElement<T>, now_ms: u64)
    requires
        !is_blank_spec(encode_utf8(e.id@)),
    ensures
        after_overlay_publish(s, e, now_ms).contains(StoredOverlay { element: e, created_at_ms: now_ms }),
{
    let stored = StoredOverlay { element: e, created_at_ms: now_ms };
    let alive = s.filter(alive_at(now_ms));
    let a = alive.filter(
        |o: StoredOverlay<T>| overlay_before(o.element, e) && !overlay_same_key(o.element, e),
    );
    assert(after_overlay_publish(s, e, now_ms)[a.len() as int] == stored);
}

/// Publishing keeps every overlay that is still alive and stored under
/// another key.
pub proof fn lemma_overlay_publish_keeps_other_keys<T>(
    s: Seq<StoredOverlay<T>>,
    e: CustomHostOverlayElement<T>,
    now_ms: u64,
    q: StoredOverlay<T>,
)
    requires
        s.contains(q),
        alive_at(now_ms)(q),
        !overlay_same_key(q.element, e),
    ensures
        after_overlay_publish(s, e, now_ms).contains(q),
{
    if !is_blank_spec(encode_utf8(e.id@)) {
        let alive = s.filter(alive_at(now_ms));
        let k = choose|k: int| 0 <= k < s.len() && s[k] == q;
        s.lemma_filter_contains(alive_at(now_ms), k);
        let pa = |o: StoredOverlay<T>| overlay_before(o.element, e) && !overlay_same_key(o.element, e);
        let pb = |o: StoredOverlay<T>| overlay_before(e, o.element) && !overlay_same_key(o.element, e);
        let a = alive.filter(pa);
        let b = alive.filter(pb);
        let r = after_overlay_publish(s, e, now_ms);
        let stored = StoredOverlay { element: e, created_at_ms: now_ms };
        assert(r == a + seq![stored] + b);
        let m = choose|m: int| 0 <= m < alive.len() && alive[m] == q;
        lemma_overlay_before_total(q.element, e);
        if overlay_before(q.element, e) {
            alive.lemma_filter_contains(pa, m);
            let i = choose|i: int| 0 <= i < a.len() && a[i] == q;
            assert(r[i] == q);
        } else {
            alive.lemma_filter_contains(pb, m);
            let i = choose|i: int| 0 <= i < b.len() && b[i] == q;
            assert(r[a.len() + 1 + i] == q);
        }
    }
}

/// After publishing (with a non-blank id), the published overlay is the only
/// one stored under its key.
pub proof fn lemma_overlay_publish_replaces_same_key<T>(
    s: Seq<StoredOverlay<T>>,
    e: CustomHostOverlayElement<T>,
    now_ms: u64,
    q: StoredOverlay<T>,
)
    requires
        !is_blank_spec(encode_utf8(e.id@)),
        after_overlay_publish(s, e, now_ms).contains(q),
        overlay_same_key(q.element, e),
    ensures
        q == (StoredOverlay { element: e, created_at_ms: now_ms }),
{
    let alive = s.filter(alive_at(now_ms));
    let pa = |o: StoredOverlay<T>| overlay_before(o.element, e) && !overlay_same_key(o.element, e);
    let pb = |o: StoredOverlay<T>| overlay_before(e, o.element) && !overlay_same_key(o.element, e);
    let a = alive.filter(pa);
    let b = alive.filter(pb);
    let r = after_overlay_publish(s, e, now_ms);
    let stored = StoredOverlay { element: e, created_at_ms: now_ms };
    assert(r == a + seq![stored] + b);
    let i = choose|i: int| 0 <= i < r.len() && r[i] == q;
    if i < a.len() {
        assert(a.contains(q));
        lemma_filter_member(alive, pa, q);
    } else if i > a.len() {
        assert(b[i - a.len() - 1] == q);
        assert(b.contains(q));
        lemma_filter_member(alive, pb, q);
    }
}

} // verus!
