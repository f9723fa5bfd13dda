//! Route update elements from the two feeds (RIS Live JSON text and OpenBMP-framed BMP
//! bytes), decoded with `bgpkit_parser`, and turned into classifier input.
use vstd::prelude::*;
use vstd::string::StringExecFns;
use bgpkit_parser::BgpElem;
use bgpkit_parser::models::{AsPathSegment, ElemType};
use bgpkit_parser::parser::bmp::messages::BmpMessageBody;
use bgpkit_parser::{Elementor, parse_bmp_msg, parse_openbmp_header, parse_ris_live_message};
use crate::classifier::{Classifier, update_applied, opt_state_view};
use crate::prefix_state::{PrefixState, opt_view, copy_opt};
use crate::step::{CtxView, EventView, GeoView, DbWrite, writes_view};
use crate::text::{words, parse_u32, split_words, parse_u32_chars};
use crate::types::{ClassificationType, MessageContext, PendingEvent};

verus! {

/// `bgpkit_parser`'s route element.
#[verifier::external_type_specification]
#[verifier::external_body]
pub struct ExBgpElem(BgpElem);

/// `bgpkit_parser`'s AS path segment.
#[verifier::external_type_specification]
#[verifier::external_body]
pub struct ExAsPathSegment(AsPathSegment);

/// One route update element as the classifier reads it: the prefix and peer address as
/// text, whether it withdraws the prefix, the AS path as text and as the AS numbers of
/// each segment, the origin AS numbers and the communities as text.
pub struct UpdateElem {
    pub prefix: String,
    pub peer_ip: String,
    pub is_withdrawal: bool,
    pub as_path: Option<String>,
    pub path_segments: Option<Vec<Vec<u32>>>,
    pub origin_asns: Option<Vec<u32>>,
    pub communities: Option<Vec<String>>,
}

/// An update element with text as characters.
pub struct ElemView {
    pub prefix: Seq<char>,
    pub peer_ip: Seq<char>,
    pub is_withdrawal: bool,
    pub as_path: Option<Seq<char>>,
    pub path_segments: Option<Seq<Seq<u32>>>,
    pub origin_asns: Option<Seq<u32>>,
    pub communities: Option<Seq<Seq<char>>>,
}

/// The views of a list of texts.
pub open spec fn texts_view(v: Seq<String>) -> Seq<Seq<char>> {
    v.map_values(|s: String| s@)
}

/// The views of a list of segments.
pub open spec fn segments_view(v: Seq<Vec<u32>>) -> Seq<Seq<u32>> {
    v.map_values(|s: Vec<u32>| s@)
}

impl View for UpdateElem {
    type V = ElemView;

    open spec fn view(&self) -> ElemView {
        ElemView {
            prefix: self.prefix@,
            peer_ip: self.peer_ip@,
            is_withdrawal: self.is_withdrawal,
            as_path: opt_view(self.as_path),
            path_segments: match self.path_segments {
                Some(v) => Some(segments_view(v@)),
                None => None,
            },
            origin_asns: match self.origin_asns {
                Some(v) => Some(v@),
                None => None,
            },
            communities: match self.communities {
                Some(v) => Some(texts_view(v@)),
                None => None,
            },
        }
    }
}

/// The views of a list of elements.
pub open spec fn elems_view(v: Seq<UpdateElem>) -> Seq<ElemView> {
    v.map_values(|e: UpdateElem| e@)
}

/// The views of an optional list of elements.
pub open spec fn opt_elems_view(o: Option<Vec<UpdateElem>>) -> Option<Seq<ElemView>> {
    match o {
        Some(v) => Some(elems_view(v@)),
        None => None,
    }
}

/// The AS numbers of one AS path segment, whatever its kind.
#[verifier::external_body]
fn segment_asns(s: &AsPathSegment) -> Vec<u32> {
    match s {
        AsPathSegment::AsSequence(v) => v.iter().map(|a| u32::from(*a)).collect(),
        AsPathSegment::AsSet(v) => v.iter().map(|a| u32::from(*a)).collect(),
        AsPathSegment::ConfedSequence(v) => v.iter().map(|a| u32::from(*a)).collect(),
        AsPathSegment::ConfedSet(v) => v.iter().map(|a| u32::from(*a)).collect(),
    }
}

/// The fields of a `bgpkit_parser` element the classifier reads, converted: prefix, peer
/// address, AS path and communities by their `Display` text, AS numbers as `u32`.
#[verifier::external_body]
fn elem_of(e: BgpElem) -> UpdateElem {
    UpdateElem {
        prefix: e.prefix.to_string(),
        peer_ip: e.peer_ip.to_string(),
        is_withdrawal: matches!(e.elem_type, ElemType::WITHDRAW),
        as_path: e.as_path.as_ref().map(|p| p.to_string()),
        path_segments: e.as_path.map(|p| p.segments.iter().map(segment_asns).collect()),
        origin_asns: e.origin_asns.map(|v| v.iter().map(|a| u32::from(*a)).collect()),
        communities: e.communities.map(|c| c.iter().map(|m| m.to_string()).collect()),
    }
}

/// The elements `bgpkit_parser::parse_ris_live_message` reads from a RIS Live message,
/// none when it rejects the message.
pub uninterp spec fn ris_live_elems(text: Seq<char>) -> Option<Seq<ElemView>>;

/// Decodes a RIS Live message with `bgpkit_parser::parse_ris_live_message`. Claimed: the
/// result is the one named `ris_live_elems` for the text.
#[verifier::external_body]
fn decode_ris_live(text: &str) -> (r: Option<Vec<UpdateElem>>)
    ensures
        opt_elems_view(r) == ris_live_elems(text@),
{
    match parse_ris_live_message(text) {
        Ok(elems) => Some(elems.into_iter().map(elem_of).collect()),
        Err(_) => None,
    }
}

/// The kind of a BMP message.
#[derive(Clone, Copy, PartialEq, Eq, Structural)]
pub enum BmpKind {
    PeerUp,
    PeerDown,
    Initiation,
    Termination,
    RouteMonitoring,
    RouteMirroring,
    StatsReport,
}

/// What an OpenBMP-framed BMP message is: the kind of its BMP message, and whether that
/// message carries a per-peer header.
#[derive(Clone, Copy, PartialEq, Eq, Structural)]
pub struct BmpFrame {
    pub kind: BmpKind,
    pub has_peer_header: bool,
}

/// What `bgpkit_parser` reads of an OpenBMP-framed BMP message: the OpenBMP header
/// (`parse_openbmp_header`), then the BMP message (`parse_bmp_msg`), its kind and whether
/// it has a per-peer header; none when either parse fails.
pub uninterp spec fn openbmp_frame(payload: Seq<u8>) -> Option<BmpFrame>;

/// Reads the framing of an OpenBMP-framed BMP message with `bgpkit_parser`'s
/// `parse_openbmp_header` and `parse_bmp_msg`. Claimed: the result is the one named
/// `openbmp_frame` for the bytes.
#[verifier::external_body]
fn decode_openbmp_frame(payload: &[u8]) -> (r: Option<BmpFrame>)
    ensures
        r == openbmp_frame(payload@),
{
    let mut bytes = bytes::Bytes::copy_from_slice(payload);
    parse_openbmp_header(&mut bytes).ok()?;
    let msg = parse_bmp_msg(&mut bytes).ok()?;
    let kind = match msg.message_body {
        BmpMessageBody::PeerUpNotification(_) => BmpKind::PeerUp,
        BmpMessageBody::PeerDownNotification(_) => BmpKind::PeerDown,
        BmpMessageBody::InitiationMessage(_) => BmpKind::Initiation,
        BmpMessageBody::TerminationMessage(_) => BmpKind::Termination,
        BmpMessageBody::RouteMonitoring(_) => BmpKind::RouteMonitoring,
        BmpMessageBody::RouteMirroring(_) => BmpKind::RouteMirroring,
        BmpMessageBody::StatsReport(_) => BmpKind::StatsReport,
    };
    Some(BmpFrame { kind, has_peer_header: msg.per_peer_header.is_some() })
}

/// The elements `bgpkit_parser`'s `Elementor::bgp_to_elems` reads from the BGP message of
/// an OpenBMP-framed route-monitoring message with a per-peer header (stamped with the
/// OpenBMP header's time, attributed to that peer); none for any other bytes.
pub uninterp spec fn route_monitoring_elems(payload: Seq<u8>) -> Option<Seq<ElemView>>;

/// Decodes the elements of an OpenBMP-framed route-monitoring message with
/// `bgpkit_parser`'s `parse_openbmp_header`, `parse_bmp_msg` and
/// `Elementor::bgp_to_elems`. Claimed: the result is the one named
/// `route_monitoring_elems` for the bytes, and there is one exactly when the framing
/// parses as a route-monitoring message with a per-peer header (the same two parses run).
#[verifier::external_body]
fn decode_route_monitoring(payload: &[u8]) -> (r: Option<Vec<UpdateElem>>)
    ensures
        opt_elems_view(r) == route_monitoring_elems(payload@),
        r is Some <==> (openbmp_frame(payload@) matches Some(f) && f.kind == BmpKind::RouteMonitoring
            && f.has_peer_header),
{
    let mut bytes = bytes::Bytes::copy_from_slice(payload);
    let header = parse_openbmp_header(&mut bytes).ok()?;
    let msg = parse_bmp_msg(&mut bytes).ok()?;
    match (msg.per_peer_header, msg.message_body) {
        (Some(ph), BmpMessageBody::RouteMonitoring(rm)) => Some(
            Elementor::bgp_to_elems(rm.bgp_message, header.timestamp, &ph.peer_ip, &ph.peer_asn)
                .into_iter().map(elem_of).collect(),
        ),
        _ => None,
    }
}

/// The elements of an OpenBMP-framed BMP message: none when its framing does not parse;
/// the elements of a route-monitoring message with a per-peer header; no elements for
/// any other message.
pub open spec fn openbmp_elems(payload: Seq<u8>) -> Option<Seq<ElemView>> {
    match openbmp_frame(payload) {
        None => None,
        Some(f) => if f.kind == BmpKind::RouteMonitoring && f.has_peer_header {
            route_monitoring_elems(payload)
        } else {
            Some(seq![])
        },
    }
}

/// The elements of a RIS Live message (see [`ris_live_elems`]).
pub fn parse_ris_live(text: &str) -> (r: Option<Vec<UpdateElem>>)
    ensures
        opt_elems_view(r) == ris_live_elems(text@),
{
    decode_ris_live(text)
}

/// The elements of an OpenBMP-framed BMP message (see [`openbmp_elems`]).
pub fn parse_routeviews(payload: &[u8]) -> (r: Option<Vec<UpdateElem>>)
    ensures
        opt_elems_view(r) == openbmp_elems(payload@),
{
    match decode_openbmp_frame(payload) {
        None => None,
        Some(f) => {
            if f.kind == BmpKind::RouteMonitoring && f.has_peer_header {
                decode_route_monitoring(payload)
            } else {
                let none: Vec<UpdateElem> = Vec::new();
                assert(elems_view(none@) =~= seq![]);
                Some(none)
            }
        },
    }
}

/// The feed an element came from.
#[derive(Clone, Copy, PartialEq, Eq, Structural)]
pub enum FeedSource {
    RisLive,
    RouteViews,
}

/// The words joined by single spaces.
pub open spec fn join_words(ws: Seq<Seq<char>>) -> Seq<char>
    decreases ws.len(),
{
    if ws.len() == 0 {
        seq![]
    } else if ws.len() == 1 {
        ws[0]
    } else {
        join_words(ws.drop_last()) + seq![' '] + ws.last()
    }
}

/// The number of AS numbers over all segments.
pub open spec fn segments_total(segs: Seq<Seq<u32>>) -> int
    decreases segs.len(),
{
    if segs.len() == 0 {
        0
    } else {
        segments_total(segs.drop_last()) + segs.last().len()
    }
}

/// The origin an element is attributed to: its first origin AS when that is nonzero,
/// else the last word of its AS path read as a number, else 0.
pub open spec fn elem_origin(e: ElemView) -> u32 {
    let first: u32 = match e.origin_asns {
        Some(v) => if v.len() > 0 {
            v[0]
        } else {
            0
        },
        None => 0,
    };
    let ws = words(
        match e.as_path {
            Some(p) => p,
            None => seq![],
        },
    );
    if first != 0 {
        first
    } else if ws.len() > 0 {
        match parse_u32(ws.last()) {
            Some(a) => a,
            None => 0,
        }
    } else {
        0
    }
}

/// The collector an element is counted under: the peer for RIS Live, `routeviews` for
/// RouteViews.
pub open spec fn feed_host(e: ElemView, src: FeedSource) -> Seq<char> {
    match src {
        FeedSource::RisLive => e.peer_ip,
        FeedSource::RouteViews => "routeviews"@,
    }
}

/// The source label of a feed.
pub open spec fn feed_label(src: FeedSource) -> Seq<char> {
    match src {
        FeedSource::RisLive => "ris"@,
        FeedSource::RouteViews => "routeviews"@,
    }
}

/// The classifier input of an element received at `now`: its path text, communities
/// joined by spaces, origin (see [`elem_origin`]), and path length (the number of AS
/// numbers over all segments, at most `usize::MAX`).
pub open spec fn context_of(e: ElemView, src: FeedSource, now: i64) -> CtxView {
    CtxView {
        now,
        host: feed_host(e, src),
        peer: e.peer_ip,
        is_withdrawal: e.is_withdrawal,
        path_str: match e.as_path {
            Some(p) => p,
            None => seq![],
        },
        comm_str: match e.communities {
            Some(c) => join_words(c),
            None => seq![],
        },
        origin_asn: elem_origin(e),
        path_len: match e.path_segments {
            Some(s) => if segments_total(s) <= usize::MAX {
                segments_total(s) as usize
            } else {
                usize::MAX
            },
            None => 0,
        },
        source: feed_label(src),
    }
}

/// The event shown for an element the classifier has no event for: attributed to its
/// origin, unclassified, at its location.
pub open spec fn plain_event(e: ElemView, src: FeedSource, now: i64, g: GeoView) -> EventView {
    EventView {
        prefix: e.prefix,
        asn: elem_origin(e),
        as_name: seq![],
        peer_ip: feed_host(e, src),
        historical_asn: 0,
        timestamp: now,
        classification_type: ClassificationType::Unclassified,
        old_classification: ClassificationType::Unclassified,
        incident_id: None,
        incident_start_time: 0,
        leak_detail: None,
        anomaly_details: None,
        source: feed_label(src),
        lat_bits: g.lat_bits,
        lon_bits: g.lon_bits,
        city: g.city,
        country: g.country,
    }
}

/// Joins words by single spaces (see [`join_words`]).
pub fn join_texts(ws: &Vec<String>) -> (r: String)
    ensures
        r@ == join_words(texts_view(ws@)),
{
    let mut out = String::new();
    let mut i: usize = 0;
    proof {
        reveal_strlit(" ");
    }
    while i < ws.len()
        invariant
            i <= ws@.len(),
            out@ == join_words(texts_view(ws@).take(i as int)),
            " "@ == seq![' '],
        decreases ws@.len() - i,
    {
        proof {
            assert(texts_view(ws@).take(i + 1).drop_last() =~= texts_view(ws@).take(i as int));
        }
        if i > 0 {
            out.append(" ");
        }
        out.append(ws[i].as_str());
        proof {
            if i == 0 {
                assert(out@ =~= texts_view(ws@).take(1)[0]);
            } else {
                assert(out@ =~= join_words(texts_view(ws@).take(i as int)) + seq![' '] + ws@[i as int]@);
            }
        }
        i = i + 1;
    }
    assert(texts_view(ws@).take(i as int) =~= texts_view(ws@));
    out
}

/// The number of AS numbers over all segments, at most `usize::MAX`.
pub fn count_asns(segs: &Vec<Vec<u32>>) -> (r: usize)
    ensures
        r == (if segments_total(segments_view(segs@)) <= usize::MAX {
            segments_total(segments_view(segs@)) as usize
        } else {
            usize::MAX
        }),
{
    let mut total: usize = 0;
    let mut capped = false;
    let mut i: usize = 0;
    while i < segs.len()
        invariant
            i <= segs@.len(),
            !capped ==> total == segments_total(segments_view(segs@).take(i as int)),
            capped ==> total == usize::MAX && segments_total(segments_view(segs@).take(i as int))
                > usize::MAX,
        decreases segs@.len() - i,
    {
        proof {
            assert(segments_view(segs@).take(i + 1).drop_last() =~= segments_view(segs@).take(
                i as int,
            ));
        }
        let n = segs[i].len();
        if !capped {
            if total <= usize::MAX - n {
                total = total + n;
            } else {
                total = usize::MAX;
                capped = true;
            }
        }
        i = i + 1;
    }
    proof {
        assert(segments_view(segs@).take(i as int) =~= segments_view(segs@));
        lemma_segments_total_nonneg(segments_view(segs@));
    }
    total
}

/// Totals are never negative, and grow with each segment.
proof fn lemma_segments_total_nonneg(segs: Seq<Seq<u32>>)
    ensures
        segments_total(segs) >= 0,
    decreases segs.len(),
{
    if segs.len() > 0 {
        lemma_segments_total_nonneg(segs.drop_last());
    }
}

/// The origin of an element (see [`elem_origin`]).
pub fn origin_of_elem(e: &UpdateElem) -> (r: u32)
    ensures
        r == elem_origin(e@),
{
    let first: u32 = match &e.origin_asns {
        Some(v) => if v.len() > 0 {
            v[0]
        } else {
            0
        },
        None => 0,
    };
    if first != 0 {
        return first;
    }
    let ws = match &e.as_path {
        Some(p) => split_words(p.as_str()),
        None => split_words(""),
    };
    proof {
        reveal_strlit("");
    }
    if ws.len() > 0 {
        let last = ws.len() - 1;
        match parse_u32_chars(&ws[last]) {
            Some(a) => a,
            None => 0,
        }
    } else {
        0
    }
}

/// The classifier input of an element received at `now` (see [`context_of`]).
pub fn elem_context(e: &UpdateElem, src: FeedSource, now: i64) -> (r: MessageContext)
    ensures
        r@ == context_of(e@, src, now),
{
    let host = match src {
        FeedSource::RisLive => e.peer_ip.clone(),
        FeedSource::RouteViews => String::from_str("routeviews"),
    };
    let source = match src {
        FeedSource::RisLive => String::from_str("ris"),
        FeedSource::RouteViews => String::from_str("routeviews"),
    };
    let path_str = match &e.as_path {
        Some(p) => p.clone(),
        None => String::new(),
    };
    let comm_str = match &e.communities {
        Some(c) => join_texts(c),
        None => String::new(),
    };
    let path_len = match &e.path_segments {
        Some(s) => count_asns(s),
        None => 0,
    };
    MessageContext {
        now,
        host,
        peer: e.peer_ip.clone(),
        is_withdrawal: e.is_withdrawal,
        path_str,
        comm_str,
        origin_asn: origin_of_elem(e),
        path_len,
        source,
    }
}

/// The event shown for an element without a classifier event (see [`plain_event`]).
#[allow(clippy::too_many_arguments)]
pub fn unclassified_event(
    e: &UpdateElem,
    src: FeedSource,
    now: i64,
    lat_bits: u32,
    lon_bits: u32,
    city: &Option<String>,
    country: &Option<String>,
) -> (r: PendingEvent)
    ensures
        r@ == plain_event(
            e@,
            src,
            now,
            GeoView { lat_bits, lon_bits, city: opt_view(*city), country: opt_view(*country) },
        ),
{
    let peer_ip = match src {
        FeedSource::RisLive => e.peer_ip.clone(),
        FeedSource::RouteViews => String::from_str("routeviews"),
    };
    let source = match src {
        FeedSource::RisLive => String::from_str("ris"),
        FeedSource::RouteViews => String::from_str("routeviews"),
    };
    PendingEvent {
        prefix: e.prefix.clone(),
        asn: origin_of_elem(e),
        as_name: String::new(),
        peer_ip,
        historical_asn: 0,
        timestamp: now,
        classification_type: ClassificationType::Unclassified,
        old_classification: ClassificationType::Unclassified,
        incident_id: None,
        incident_start_time: 0,
        leak_detail: None,
        anomaly_details: None,
        source,
        lat_bits,
        lon_bits,
        city: copy_opt(city),
        country: copy_opt(country),
    }
}

/// What one element gives: the event to show, whether the classifier produced it, the
/// outage-timer request and the store writes.
pub struct ElemOutcome {
    pub event: PendingEvent,
    pub classified: bool,
    pub needs_timer: bool,
    pub writes: Vec<DbWrite>,
}

/// Classifies one element received at `now` from `src`, located at the given
/// coordinates, city and country (`stored`: the prefix's state read back from the store,
/// see [`Classifier::classify_event`]). The classifier's event is shown when it has one;
/// otherwise the element's plain event (see [`plain_event`]).
#[allow(clippy::too_many_arguments)]
pub fn process_elem(
    classifier: &mut Classifier,
    e: &UpdateElem,
    src: FeedSource,
    now: i64,
    lat_bits: u32,
    lon_bits: u32,
    city: Option<String>,
    country: Option<String>,
    stored: Option<PrefixState>,
    incident_id: String,
) -> (r: ElemOutcome)
    requires
        old(classifier).wf(),
    ensures
        final(classifier).wf(),
        final(classifier).seen_db == old(classifier).seen_db,
        final(classifier).bgpkit == old(classifier).bgpkit,
        !r.classified ==> r.event@ == plain_event(
            e@,
            src,
            now,
            GeoView { lat_bits, lon_bits, city: opt_view(city), country: opt_view(country) },
        ),
        update_applied(
            old(classifier),
            final(classifier),
            e@.prefix,
            context_of(e@, src, now),
            GeoView { lat_bits, lon_bits, city: opt_view(city), country: opt_view(country) },
            opt_state_view(stored),
            if r.classified {
                Some(r.event@)
            } else {
                None
            },
            r.needs_timer,
            writes_view(r.writes@),
            incident_id@,
        ),
{
    let ctx = elem_context(e, src, now);
    let plain = unclassified_event(e, src, now, lat_bits, lon_bits, &city, &country);
    let out = classifier.classify_event(e.prefix.clone(), &ctx, lat_bits, lon_bits, city, country, stored, incident_id);
    match out.event {
        Some(ev) => ElemOutcome { event: ev, classified: true, needs_timer: out.needs_timer, writes: out.writes },
        None => ElemOutcome { event: plain, classified: false, needs_timer: out.needs_timer, writes: out.writes },
    }
}

} // verus!
