//! The discovery loop: biased geo-sampling and accept/reject search,
//! expressed as a verified state machine.
//!
//! One discovery call must produce `quota` distinct places within
//! `max_distance` of `center` that meet `min_rating`, found by repeatedly
//! probing the directory at randomly chosen sub-locations. The machine holds
//! every decision of that loop: request validation, the widened search
//! radius, the in-order scan of each candidate batch, the acceptance
//! predicate, accumulation, and the attempt budget. The driver around it
//! performs what the machine cannot: it draws the biased random point,
//! calls the directory over the network, and computes the true great-circle
//! distance of each detailed candidate, handing each outcome back as an
//! event.
//!
//! Failure handling follows the loop's design: a failed nearby search is
//! fatal, a failed detail fetch skips one candidate, cancellation drops all
//! partial results, and a spent attempt budget reports exhaustion rather
//! than searching forever.
use vstd::prelude::*;
use crate::decimal::rating_value;
use crate::geo::{Distance, GeoPoint};
use crate::trip_advisor::Error;
use crate::trip_advisor::details::Details;
use crate::trip_advisor::nearby_search::{Category, Location};

verus! {

/// A quality rating in hundredths of a star.
#[derive(Debug, Clone, Copy, PartialEq, Eq, Structural)]
pub struct Rating {
    pub hundredths: u64,
}

/// The closeness bias in thousandths: the exponent applied to the uniform
/// radial fraction when sampling. Values above one thousand concentrate
/// samples near the center; a non-positive bias is a configuration error.
#[derive(Debug, Clone, Copy, PartialEq, Eq, Structural)]
pub struct Bias {
    pub millis: u32,
}

/// One discovery request.
#[derive(Debug, Clone, PartialEq)]
pub struct DiscoveryRequest {
    pub center: GeoPoint,
    pub max_distance: Distance,
    pub quota: usize,
    pub min_rating: Rating,
    pub bias: Bias,
    /// How many sampling rounds may be spent before the call reports
    /// exhaustion instead of searching forever.
    pub max_attempts: u32,
}

/// Why a request was rejected before any directory contact.
#[derive(Debug, Clone, Copy, PartialEq, Eq, Structural)]
pub enum ValidationError {
    CenterOutOfRange,
    NonPositiveBias,
    RatingOutOfRange,
    DistanceTooLarge,
}

impl DiscoveryRequest {
    /// A request the loop may act on: a legal center, a positive bias, a
    /// minimum rating within the zero-to-five display range, and a radius
    /// whose doubled search width still fits the representation.
    pub open spec fn valid(&self) -> bool {
        &&& self.center.wf()
        &&& self.bias.millis > 0
        &&& self.min_rating.hundredths <= 500
        &&& self.max_distance.micrometers <= u64::MAX / 2
    }

    /// The first failing check of an invalid request.
    pub open spec fn first_validation_error(&self) -> ValidationError {
        if !self.center.wf() {
            ValidationError::CenterOutOfRange
        } else if self.bias.millis == 0 {
            ValidationError::NonPositiveBias
        } else if self.min_rating.hundredths > 500 {
            ValidationError::RatingOutOfRange
        } else {
            ValidationError::DistanceTooLarge
        }
    }

    /// Accept exactly the valid requests, reporting the first failing check.
    pub fn validate(&self) -> (r: Result<(), ValidationError>)
        ensures
            match r {
                Ok(_) => self.valid(),
                Err(e) => !self.valid() && e == self.first_validation_error(),
            },
    {
        if !(-crate::geo::LAT_LIMIT_UDEG <= self.center.lat_udeg && self.center.lat_udeg
            <= crate::geo::LAT_LIMIT_UDEG && -crate::geo::LON_LIMIT_UDEG <= self.center.lon_udeg
            && self.center.lon_udeg <= crate::geo::LON_LIMIT_UDEG) {
            Err(ValidationError::CenterOutOfRange)
        } else if self.bias.millis == 0 {
            Err(ValidationError::NonPositiveBias)
        } else if self.min_rating.hundredths > 500 {
            Err(ValidationError::RatingOutOfRange)
        } else if self.max_distance.micrometers > u64::MAX / 2 {
            Err(ValidationError::DistanceTooLarge)
        } else {
            Ok(())
        }
    }
}

/// A place that passed both checks; the only record a discovery call hands
/// back.
#[derive(Debug, Clone, PartialEq)]
pub struct LocationInfo {
    pub name: String,
    pub description: Option<String>,
    pub website: Option<String>,
    pub rating: Rating,
    pub address: String,
    pub distance: Distance,
}

/// How a discovery call can fail.
#[derive(Debug, Clone, PartialEq)]
pub enum GetRandomLocationError {
    /// The request was malformed; the directory was never contacted.
    Validation(ValidationError),
    /// A nearby search itself failed: fatal to the whole call.
    Service(Error),
    /// The call was cancelled externally; no partial results.
    Cancelled,
    /// The attempt budget was spent before the quota was met.
    Exhausted,
}

/// The rating of a detail record: its rating text read in hundredths, with
/// an absent or malformed text counting as zero.
pub open spec fn detail_rating(detail: Details) -> nat {
    match detail.rating {
        Some(s) => rating_value(vstd::utf8::encode_utf8(s@)),
        None => 0,
    }
}

/// The acceptance predicate: the rating check is inclusive, the distance
/// check strict, since the search radius was widened and the true distance
/// must independently confirm the quota radius.
pub open spec fn qualifies(
    detail: Details,
    distance: Distance,
    min_rating: Rating,
    max_distance: Distance,
) -> bool {
    &&& detail_rating(detail) >= min_rating.hundredths
    &&& distance.micrometers < max_distance.micrometers
}

/// Decide whether a detailed candidate at a computed distance qualifies.
pub fn evaluate(
    detail: &Details,
    distance: Distance,
    min_rating: Rating,
    max_distance: Distance,
) -> (accepted: bool)
    ensures
        accepted == qualifies(*detail, distance, min_rating, max_distance),
{
    let rating: u64 = match &detail.rating {
        Some(s) => crate::decimal::parse_rating(s.as_str()),
        None => 0,
    };
    rating >= min_rating.hundredths && distance.micrometers < max_distance.micrometers
}

/// The record kept for an accepted candidate.
pub open spec fn location_info_of(detail: Details, distance: Distance) -> LocationInfo {
    LocationInfo {
        name: detail.name,
        description: detail.description,
        website: detail.website,
        rating: Rating { hundredths: detail_rating(detail) as u64 },
        address: detail.address_obj.address_string,
        distance,
    }
}

/// Build the kept record from a detailed candidate, consuming it.
pub fn make_location_info(detail: Details, distance: Distance) -> (info: LocationInfo)
    ensures
        info == location_info_of(detail, distance),
{
    proof {
        if detail.rating is Some {
            crate::decimal::lemma_rating_value_bound(vstd::utf8::encode_utf8(detail.rating->0@));
        }
    }
    let rating: u64 = match &detail.rating {
        Some(s) => crate::decimal::parse_rating(s.as_str()),
        None => 0,
    };
    LocationInfo {
        name: detail.name,
        description: detail.description,
        website: detail.website,
        rating: Rating { hundredths: rating },
        address: detail.address_obj.address_string,
        distance,
    }
}

/// A result the loop may keep: it meets the rating threshold and lies
/// strictly inside the radius.
pub open spec fn accepted_result(info: LocationInfo, req: DiscoveryRequest) -> bool {
    &&& info.rating.hundredths >= req.min_rating.hundredths
    &&& info.distance.micrometers < req.max_distance.micrometers
}

/// What the driver must do next.
#[derive(Debug, Clone, PartialEq)]
pub enum DiscoveryAction {
    /// Draw a biased random point within `radius` of `center`.
    SamplePoint { center: GeoPoint, radius: Distance, bias: Bias },
    /// Ask the directory for candidates around `point` within `radius`.
    Search { point: GeoPoint, radius: Distance, category: Category },
    /// Fetch the detail record of one candidate.
    FetchDetail { location_id: String },
    /// The call is over; take the outcome.
    Finished,
}

/// Which event the machine is waiting for.
#[derive(Debug, Clone, PartialEq)]
pub enum Phase {
    AwaitSample,
    AwaitSearch { point: GeoPoint },
    AwaitDetail,
    Done,
    Failed { error: GetRandomLocationError },
}

/// One discovery call in progress.
#[derive(Debug)]
pub struct Discovery {
    pub req: DiscoveryRequest,
    pub results: Vec<LocationInfo>,
    /// Sampling rounds begun so far.
    pub attempts: u32,
    /// The current candidate batch, in the directory's order.
    pub candidates: Vec<Location>,
    /// The next candidate of the batch to detail.
    pub index: usize,
    pub phase: Phase,
}

impl Discovery {
    /// The machine's invariant: `new` establishes it and every transition
    /// preserves it, so a driver that only moves the machine through its
    /// own methods can always hand it the next event.
    pub open spec fn wf(&self) -> bool {
        &&& self.results@.len() <= self.req.quota
        &&& self.attempts <= self.req.max_attempts
        &&& (forall|i: int|
            0 <= i < self.results@.len() ==> accepted_result(#[trigger] self.results@[i], self.req))
        &&& (self.phase is Done ==> self.results@.len() == self.req.quota)
        &&& (self.in_progress() ==> self.req.valid() && self.results@.len() < self.req.quota)
        &&& (self.phase is AwaitSample ==> self.attempts < self.req.max_attempts)
        &&& (self.phase is AwaitDetail ==> self.index < self.candidates@.len())
    }

    /// Still waiting on the driver for an event.
    pub open spec fn in_progress(&self) -> bool {
        !(self.phase is Done) && !(self.phase is Failed)
    }

    /// The phase after a finished round: another sampling round while budget
    /// remains, else exhaustion.
    pub open spec fn round_end_phase(&self) -> Phase {
        if self.attempts < self.req.max_attempts {
            Phase::AwaitSample
        } else {
            Phase::Failed { error: GetRandomLocationError::Exhausted }
        }
    }

    /// Begin a discovery call. An invalid request fails at once, before any
    /// action is issued; a zero quota succeeds at once with no results.
    pub fn new(req: DiscoveryRequest) -> (m: Discovery)
        ensures
            m.wf(),
            m.req == req,
            m.results@.len() == 0,
            m.attempts == 0,
            !req.valid() ==> m.phase == (Phase::Failed {
                error: GetRandomLocationError::Validation(req.first_validation_error()),
            }),
            req.valid() && req.quota == 0 ==> m.phase is Done,
            req.valid() && req.quota > 0 && req.max_attempts == 0 ==> m.phase == (Phase::Failed {
                error: GetRandomLocationError::Exhausted,
            }),
            req.valid() && req.quota > 0 && req.max_attempts > 0 ==> m.phase is AwaitSample,
    {
        let phase = match req.validate() {
            Err(e) => Phase::Failed { error: GetRandomLocationError::Validation(e) },
            Ok(_) => {
                if req.quota == 0 {
                    Phase::Done
                } else if req.max_attempts == 0 {
                    Phase::Failed { error: GetRandomLocationError::Exhausted }
                } else {
                    Phase::AwaitSample
                }
            },
        };
        Discovery {
            req,
            results: Vec::new(),
            attempts: 0,
            candidates: Vec::new(),
            index: 0,
            phase,
        }
    }

    /// What the driver must do next, read off the current phase.
    pub fn action(&self) -> (a: DiscoveryAction)
        requires
            self.wf(),
        ensures
            self.action_is(a),
    {
        match &self.phase {
            Phase::AwaitSample => DiscoveryAction::SamplePoint {
                center: self.req.center,
                radius: self.req.max_distance,
                bias: self.req.bias,
            },
            Phase::AwaitSearch { point } => DiscoveryAction::Search {
                point: *point,
                radius: Distance::from_micrometers(self.req.max_distance.micrometers * 2),
                category: Category::Attractions,
            },
            Phase::AwaitDetail => DiscoveryAction::FetchDetail {
                location_id: self.candidates[self.index].location_id.clone(),
            },
            Phase::Done => DiscoveryAction::Finished,
            Phase::Failed { .. } => DiscoveryAction::Finished,
        }
    }

    /// The action that belongs to the current phase: sampling uses the
    /// request's own center, radius and bias; a search probes around the
    /// sampled point for attractions within twice the radius; a detail fetch
    /// names the next candidate of the batch in order.
    pub open spec fn action_is(&self, a: DiscoveryAction) -> bool {
        match self.phase {
            Phase::AwaitSample => a == (DiscoveryAction::SamplePoint {
                center: self.req.center,
                radius: self.req.max_distance,
                bias: self.req.bias,
            }),
            Phase::AwaitSearch { point } => a == (DiscoveryAction::Search {
                point,
                radius: Distance {
                    micrometers: (2 * self.req.max_distance.micrometers) as u64,
                },
                category: Category::Attractions,
            }),
            Phase::AwaitDetail => match a {
                DiscoveryAction::FetchDetail { location_id } => location_id@
                    == self.candidates@[self.index as int].location_id@,
                _ => false,
            },
            Phase::Done => a == DiscoveryAction::Finished,
            Phase::Failed { .. } => a == DiscoveryAction::Finished,
        }
    }

    /// The driver sampled a point: spend one attempt and search around it.
    pub fn on_sampled(&mut self, point: GeoPoint)
        requires
            old(self).wf(),
            old(self).phase is AwaitSample,
        ensures
            final(self).wf(),
            final(self).req == old(self).req,
            final(self).results@ == old(self).results@,
            final(self).attempts == old(self).attempts + 1,
            final(self).phase == (Phase::AwaitSearch { point }),
    {
        self.attempts = self.attempts + 1;
        self.phase = Phase::AwaitSearch { point };
    }

    /// The nearby search came back. A directory failure is fatal; an empty
    /// batch ends the round; otherwise the batch is scanned in the
    /// directory's order, starting at its first candidate.
    pub fn on_search(&mut self, result: Result<Vec<Location>, Error>)
        requires
            old(self).wf(),
            old(self).phase is AwaitSearch,
        ensures
            final(self).wf(),
            final(self).req == old(self).req,
            final(self).results@ == old(self).results@,
            final(self).attempts == old(self).attempts,
            match result {
                Err(e) => final(self).phase == (Phase::Failed {
                    error: GetRandomLocationError::Service(e),
                }),
                Ok(candidates) => {
                    if candidates@.len() == 0 {
                        final(self).phase == old(self).round_end_phase()
                    } else {
                        &&& final(self).phase is AwaitDetail
                        &&& final(self).candidates == candidates
                        &&& final(self).index == 0
                    }
                },
            },
    {
        match result {
            Err(e) => {
                self.phase = Phase::Failed { error: GetRandomLocationError::Service(e) };
            },
            Ok(candidates) => {
                if candidates.len() == 0 {
                    self.end_round();
                } else {
                    self.candidates = candidates;
                    self.index = 0;
                    self.phase = Phase::AwaitDetail;
                }
            },
        }
    }

    /// A detail fetch concluded. A per-candidate failure only skips that
    /// candidate. A qualifying candidate is kept — first hit wins, the rest
    /// of the batch is dropped — and the call is done when it fills the
    /// quota. A non-qualifying candidate passes the scan on; a spent batch
    /// ends the round.
    pub fn on_detail(&mut self, result: Result<(Details, Distance), Error>)
        requires
            old(self).wf(),
            old(self).phase is AwaitDetail,
        ensures
            final(self).wf(),
            final(self).req == old(self).req,
            final(self).attempts == old(self).attempts,
            match result {
                Err(_) => final(self).results@ == old(self).results@ && final(self).after_skip_is(
                    *old(self),
                ),
                Ok(outcome) => {
                    if qualifies(
                        outcome.0,
                        outcome.1,
                        old(self).req.min_rating,
                        old(self).req.max_distance,
                    ) {
                        &&& final(self).results@ == old(self).results@.push(
                            location_info_of(outcome.0, outcome.1),
                        )
                        &&& (if final(self).results@.len() == final(self).req.quota {
                            final(self).phase is Done
                        } else {
                            final(self).phase == old(self).round_end_phase()
                        })
                    } else {
                        final(self).results@ == old(self).results@ && final(self).after_skip_is(
                            *old(self),
                        )
                    }
                },
            },
    {
        match result {
            Err(_) => {
                self.skip_candidate();
            },
            Ok((detail, distance)) => {
                let ghost prior = *self;
                if evaluate(&detail, distance, self.req.min_rating, self.req.max_distance) {
                    let ghost accepted_detail = detail;
                    let info = make_location_info(detail, distance);
                    proof {
                        if accepted_detail.rating is Some {
                            crate::decimal::lemma_rating_value_bound(
                                vstd::utf8::encode_utf8(accepted_detail.rating->0@),
                            );
                        }
                        assert(accepted_result(info, self.req));
                    }
                    self.results.push(info);
                    proof {
                        assert forall|i: int|
                            0 <= i < self.results@.len() implies accepted_result(
                            #[trigger] self.results@[i],
                            self.req,
                        ) by {
                            if i < self.results@.len() - 1 {
                                assert(self.results@[i] == prior.results@[i]);
                                assert(accepted_result(prior.results@[i], prior.req));
                            }
                        }
                    }
                    if self.results.len() == self.req.quota {
                        self.phase = Phase::Done;
                    } else {
                        self.end_round();
                    }
                } else {
                    self.skip_candidate();
                }
            },
        }
    }

    /// After a candidate is passed over: the next of the batch, or the end
    /// of the round when the batch is spent.
    pub open spec fn after_skip_is(&self, prev: Discovery) -> bool {
        if prev.index + 1 < prev.candidates@.len() {
            &&& self.phase is AwaitDetail
            &&& self.candidates@ == prev.candidates@
            &&& self.index == prev.index + 1
        } else {
            self.phase == prev.round_end_phase()
        }
    }

    /// An external cancellation: the call stops at once and keeps nothing.
    pub fn on_cancelled(&mut self)
        requires
            old(self).wf(),
        ensures
            final(self).wf(),
            final(self).req == old(self).req,
            final(self).phase == (Phase::Failed { error: GetRandomLocationError::Cancelled }),
    {
        self.phase = Phase::Failed { error: GetRandomLocationError::Cancelled };
    }

    /// Whether the call is over.
    pub fn is_finished(&self) -> (b: bool)
        ensures
            b == !self.in_progress(),
    {
        match &self.phase {
            Phase::Done => true,
            Phase::Failed { .. } => true,
            _ => false,
        }
    }

    /// The outcome of a finished call: on success exactly `quota` places,
    /// each qualifying, in the order they were accepted.
    pub fn outcome(self) -> (r: Result<Vec<LocationInfo>, GetRandomLocationError>)
        requires
            self.wf(),
            !self.in_progress(),
        ensures
            match r {
                Ok(locations) => {
                    &&& self.phase is Done
                    &&& locations@.len() == self.req.quota
                    &&& locations == self.results
                    &&& forall|i: int|
                        0 <= i < locations@.len() ==> accepted_result(
                            #[trigger] locations@[i],
                            self.req,
                        )
                },
                Err(e) => self.phase == (Phase::Failed { error: e }),
            },
    {
        match self.phase {
            Phase::Done => Ok(self.results),
            Phase::Failed { error } => Err(error),
            _ => Err(GetRandomLocationError::Cancelled),
        }
    }

    /// Step past the current candidate of the batch.
    fn skip_candidate(&mut self)
        requires
            old(self).wf(),
            old(self).phase is AwaitDetail,
        ensures
            final(self).wf(),
            final(self).req == old(self).req,
            final(self).results@ == old(self).results@,
            final(self).attempts == old(self).attempts,
            final(self).after_skip_is(*old(self)),
    {
        let n = self.candidates.len();
        if self.index + 1 < n {
            self.index = self.index + 1;
        } else {
            self.end_round();
        }
    }

    /// Close a sampling round that kept nothing for the open quota slot.
    fn end_round(&mut self)
        requires
            old(self).wf(),
            old(self).in_progress(),
        ensures
            final(self).wf(),
            final(self).req == old(self).req,
            final(self).results@ == old(self).results@,
            final(self).attempts == old(self).attempts,
            final(self).candidates@ == old(self).candidates@,
            final(self).index == old(self).index,
            final(self).phase == old(self).round_end_phase(),
    {
        if self.attempts < self.req.max_attempts {
            self.phase = Phase::AwaitSample;
        } else {
            self.phase = Phase::Failed { error: GetRandomLocationError::Exhausted };
        }
    }
}

/// Pass an error through unchanged: the seam where a driver hangs its
/// diagnostics.
pub fn log_err<T>(err: T) -> (r: T)
    ensures
        r == err,
{
    err
}

/// A candidate whose true distance equals the maximum exactly is rejected:
/// the distance check is strict.
pub proof fn lemma_boundary_distance_rejected(
    detail: Details,
    distance: Distance,
    min_rating: Rating,
    max_distance: Distance,
)
    requires
        distance.micrometers == max_distance.micrometers,
    ensures
        !qualifies(detail, distance, min_rating, max_distance),
{
}

/// A candidate whose rating equals the minimum exactly is accepted when it
/// lies inside the radius: the rating check is inclusive.
pub proof fn lemma_boundary_rating_accepted(
    detail: Details,
    distance: Distance,
    min_rating: Rating,
    max_distance: Distance,
)
    requires
        detail_rating(detail) == min_rating.hundredths,
        distance.micrometers < max_distance.micrometers,
    ensures
        qualifies(detail, distance, min_rating, max_distance),
{
}

} // verus!
