use trip_maker::discovery::{
    Bias, Discovery, DiscoveryAction, DiscoveryRequest, GetRandomLocationError, LocationInfo,
    Phase, Rating, ValidationError, evaluate, log_err, make_location_info,
};
use trip_maker::geo::{Distance, GeoPoint};
use trip_maker::trip_advisor::details::Details;
use trip_maker::trip_advisor::nearby_search::Location;
use trip_maker::trip_advisor::{Address, Error};

fn address() -> Address {
    Address {
        street1: "1 Main St".to_owned(),
        street2: None,
        city: "Springfield".to_owned(),
        state: "IL".to_owned(),
        country: "USA".to_owned(),
        postalcode: "62701".to_owned(),
        address_string: "1 Main St, Springfield".to_owned(),
    }
}

fn candidate(id: &str) -> Location {
    Location {
        location_id: id.to_owned(),
        name: format!("place {}", id),
        distance: "0.5".to_owned(),
        bearing: "north".to_owned(),
        address_obj: address(),
    }
}

fn detail(id: &str, rating: Option<&str>) -> Details {
    Details {
        location_id: id.to_owned(),
        name: format!("place {}", id),
        description: Some("a pleasant spot".to_owned()),
        web_url: None,
        address_obj: address(),
        ancestors: Vec::new(),
        latitude: "0".to_owned(),
        longitude: "0".to_owned(),
        timezone: "UTC".to_owned(),
        email: None,
        phone: None,
        website: Some("https://example.com".to_owned()),
        write_review: None,
        ranking_data: None,
        rating: rating.map(|r| r.to_owned()),
        rating_image_url: None,
        num_review: None,
        review_rating_count: None,
        photo_count: "0".to_owned(),
        see_all_photos: "".to_owned(),
        price_level: None,
        hours: None,
        amenities: None,
        features: None,
        cuisine: None,
        parent_brand: None,
        brand: None,
        category: None,
        subcategory: Vec::new(),
        group: None,
        styles: None,
        neighborhood_info: Vec::new(),
        trip_types: Vec::new(),
        awards: Vec::new(),
    }
}

fn request(quota: usize, max_km: u64, min_hundredths: u64, max_attempts: u32) -> DiscoveryRequest {
    DiscoveryRequest {
        center: GeoPoint { lat_udeg: 0, lon_udeg: 0 },
        max_distance: Distance::from_kilometers(max_km).unwrap(),
        quota,
        min_rating: Rating { hundredths: min_hundredths },
        bias: Bias { millis: 1000 },
        max_attempts,
    }
}

fn km(n: u64) -> Distance {
    Distance::from_kilometers(n).unwrap()
}

#[test]
fn zero_quota_returns_empty_without_contacting_directory() {
    let m = Discovery::new(request(0, 10, 0, 5));
    // the machine is finished before any action is requested of the driver
    assert_eq!(m.action(), DiscoveryAction::Finished);
    let out = m.outcome().expect("zero quota must succeed");
    assert!(out.is_empty());
}

#[test]
fn invalid_bias_rejected_before_any_action() {
    let mut req = request(1, 10, 0, 5);
    req.bias = Bias { millis: 0 };
    let m = Discovery::new(req);
    assert_eq!(m.action(), DiscoveryAction::Finished);
    assert_eq!(
        m.outcome().unwrap_err(),
        GetRandomLocationError::Validation(ValidationError::NonPositiveBias)
    );
}

#[test]
fn invalid_center_rejected() {
    let mut req = request(1, 10, 0, 5);
    req.center = GeoPoint { lat_udeg: 91_000_000, lon_udeg: 0 };
    let m = Discovery::new(req);
    assert_eq!(
        m.outcome().unwrap_err(),
        GetRandomLocationError::Validation(ValidationError::CenterOutOfRange)
    );
}

#[test]
fn invalid_rating_rejected() {
    let mut req = request(1, 10, 0, 5);
    req.min_rating = Rating { hundredths: 501 };
    let m = Discovery::new(req);
    assert_eq!(
        m.outcome().unwrap_err(),
        GetRandomLocationError::Validation(ValidationError::RatingOutOfRange)
    );
}

#[test]
fn oversized_distance_rejected() {
    let mut req = request(1, 10, 0, 5);
    req.max_distance = Distance::from_micrometers(u64::MAX / 2 + 1);
    let m = Discovery::new(req);
    assert_eq!(
        m.outcome().unwrap_err(),
        GetRandomLocationError::Validation(ValidationError::DistanceTooLarge)
    );
}

#[test]
fn search_radius_is_doubled_and_category_attractions() {
    let mut m = Discovery::new(request(1, 10, 0, 5));
    match m.action() {
        DiscoveryAction::SamplePoint { center, radius, bias } => {
            assert_eq!(center, GeoPoint { lat_udeg: 0, lon_udeg: 0 });
            assert_eq!(radius, km(10));
            assert_eq!(bias, Bias { millis: 1000 });
        }
        other => panic!("expected a sampling action, got {:?}", other),
    }
    let sampled = GeoPoint { lat_udeg: 50_000, lon_udeg: 60_000 };
    m.on_sampled(sampled);
    match m.action() {
        DiscoveryAction::Search { point, radius, category } => {
            assert_eq!(point, sampled);
            assert_eq!(radius, km(20));
            assert_eq!(
                category,
                trip_maker::trip_advisor::nearby_search::Category::Attractions
            );
        }
        other => panic!("expected a search action, got {:?}", other),
    }
}

/// Drive one full discovery against a scripted directory in which every
/// search returns one candidate whose detail qualifies at 3 km.
#[test]
fn always_qualifying_stub_fills_quota_exactly() {
    let quota = 3;
    let mut m = Discovery::new(request(quota, 10, 0, 100));
    let mut search_calls = 0;
    let mut detail_calls = 0;
    loop {
        match m.action() {
            DiscoveryAction::SamplePoint { .. } => {
                m.on_sampled(GeoPoint { lat_udeg: 1000, lon_udeg: 1000 });
            }
            DiscoveryAction::Search { .. } => {
                search_calls += 1;
                m.on_search(Ok(vec![candidate(&format!("c{}", search_calls))]));
            }
            DiscoveryAction::FetchDetail { location_id } => {
                detail_calls += 1;
                m.on_detail(Ok((detail(&location_id, Some("4.5")), km(3))));
            }
            DiscoveryAction::Finished => break,
        }
    }
    let out = m.outcome().expect("qualifying stub must fill the quota");
    assert_eq!(out.len(), quota);
    assert_eq!(search_calls, quota);
    assert_eq!(detail_calls, quota);
    for info in &out {
        assert_eq!(info.rating, Rating { hundredths: 450 });
        assert_eq!(info.distance, km(3));
    }
    // accepted in order
    assert_eq!(out[0].name, "place c1");
    assert_eq!(out[1].name, "place c2");
    assert_eq!(out[2].name, "place c3");
}

#[test]
fn candidate_exactly_at_max_distance_is_rejected() {
    let d = detail("x", Some("5.0"));
    assert!(!evaluate(&d, km(10), Rating { hundredths: 0 }, km(10)));
    // one micrometer inside the radius is accepted
    assert!(evaluate(
        &d,
        Distance::from_micrometers(km(10).micrometers - 1),
        Rating { hundredths: 0 },
        km(10)
    ));
}

#[test]
fn candidate_exactly_at_min_rating_is_accepted() {
    let d = detail("x", Some("3.5"));
    assert!(evaluate(&d, km(1), Rating { hundredths: 350 }, km(10)));
    // one hundredth above the candidate's rating rejects it
    assert!(!evaluate(&d, km(1), Rating { hundredths: 351 }, km(10)));
}

#[test]
fn absent_rating_counts_as_zero() {
    let d = detail("x", None);
    assert!(evaluate(&d, km(1), Rating { hundredths: 0 }, km(10)));
    assert!(!evaluate(&d, km(1), Rating { hundredths: 1 }, km(10)));
}

#[test]
fn malformed_rating_counts_as_zero() {
    let d = detail("x", Some("not a number"));
    assert!(evaluate(&d, km(1), Rating { hundredths: 0 }, km(10)));
    assert!(!evaluate(&d, km(1), Rating { hundredths: 1 }, km(10)));
}

/// The worked example: center at the origin, a ten kilometer radius, one
/// place wanted, no rating floor, neutral bias; the single candidate's
/// detail lies five kilometers out with rating 4.0.
#[test]
fn single_candidate_at_five_km() {
    let mut m = Discovery::new(request(1, 10, 0, 5));
    match m.action() {
        DiscoveryAction::SamplePoint { .. } => m.on_sampled(GeoPoint {
            lat_udeg: 20_000,
            lon_udeg: 0,
        }),
        other => panic!("expected a sampling action, got {:?}", other),
    }
    m.on_search(Ok(vec![candidate("only")]));
    // the driver computes the true center distance: here five kilometers
    let five_km = km(5);
    match m.action() {
        DiscoveryAction::FetchDetail { location_id } => {
            assert_eq!(location_id, "only");
            m.on_detail(Ok((detail("only", Some("4.0")), five_km)));
        }
        other => panic!("expected a detail action, got {:?}", other),
    }
    let out = m.outcome().expect("the candidate qualifies");
    assert_eq!(out.len(), 1);
    assert_eq!(out[0].rating, Rating { hundredths: 400 });
    assert_eq!(out[0].distance, five_km);
    assert_eq!(out[0].name, "place only");
    assert_eq!(out[0].website.as_deref(), Some("https://example.com"));
}

/// A stub that never yields a qualifying candidate: the call reports
/// exhaustion once the attempt budget is spent, rather than searching
/// forever.
#[test]
fn never_qualifying_stub_exhausts_attempt_budget() {
    let budget = 4;
    let mut m = Discovery::new(request(1, 10, 450, budget));
    let mut search_calls = 0;
    loop {
        match m.action() {
            DiscoveryAction::SamplePoint { .. } => {
                m.on_sampled(GeoPoint { lat_udeg: 0, lon_udeg: 0 });
            }
            DiscoveryAction::Search { .. } => {
                search_calls += 1;
                m.on_search(Ok(vec![candidate("weak")]));
            }
            DiscoveryAction::FetchDetail { .. } => {
                // rating 2.0 never meets the 4.5 floor
                m.on_detail(Ok((detail("weak", Some("2.0")), km(1))));
            }
            DiscoveryAction::Finished => break,
        }
    }
    assert_eq!(m.outcome().unwrap_err(), GetRandomLocationError::Exhausted);
    assert_eq!(search_calls, budget);
}

#[test]
fn zero_attempt_budget_with_open_quota_is_exhausted_at_once() {
    let m = Discovery::new(request(1, 10, 0, 0));
    assert_eq!(m.outcome().unwrap_err(), GetRandomLocationError::Exhausted);
}

#[test]
fn search_failure_is_fatal() {
    let mut m = Discovery::new(request(1, 10, 0, 5));
    m.on_sampled(GeoPoint { lat_udeg: 0, lon_udeg: 0 });
    m.on_search(Err(Error { message: "directory unavailable".to_owned() }));
    match m.outcome().unwrap_err() {
        GetRandomLocationError::Service(e) => assert_eq!(e.message, "directory unavailable"),
        other => panic!("expected a service error, got {:?}", other),
    }
}

#[test]
fn failed_detail_fetch_skips_only_that_candidate() {
    let mut m = Discovery::new(request(1, 10, 0, 5));
    m.on_sampled(GeoPoint { lat_udeg: 0, lon_udeg: 0 });
    m.on_search(Ok(vec![candidate("broken"), candidate("good")]));
    match m.action() {
        DiscoveryAction::FetchDetail { location_id } => assert_eq!(location_id, "broken"),
        other => panic!("expected a detail action, got {:?}", other),
    }
    m.on_detail(Err(log_err(Error { message: "detail timed out".to_owned() })));
    match m.action() {
        DiscoveryAction::FetchDetail { location_id } => assert_eq!(location_id, "good"),
        other => panic!("expected a detail action, got {:?}", other),
    }
    m.on_detail(Ok((detail("good", Some("4.0")), km(2))));
    let out = m.outcome().expect("the second candidate qualifies");
    assert_eq!(out.len(), 1);
    assert_eq!(out[0].name, "place good");
}

#[test]
fn first_qualifying_candidate_wins_in_search_order() {
    let mut m = Discovery::new(request(1, 10, 0, 5));
    m.on_sampled(GeoPoint { lat_udeg: 0, lon_udeg: 0 });
    m.on_search(Ok(vec![candidate("first"), candidate("second")]));
    // both would qualify; the first is detailed first and taken
    match m.action() {
        DiscoveryAction::FetchDetail { location_id } => {
            assert_eq!(location_id, "first");
            m.on_detail(Ok((detail("first", Some("4.0")), km(2))));
        }
        other => panic!("expected a detail action, got {:?}", other),
    }
    let out = m.outcome().unwrap();
    assert_eq!(out[0].name, "place first");
}

#[test]
fn rejected_batch_leads_to_new_sampling_round() {
    let mut m = Discovery::new(request(1, 10, 400, 5));
    m.on_sampled(GeoPoint { lat_udeg: 0, lon_udeg: 0 });
    m.on_search(Ok(vec![candidate("low")]));
    m.on_detail(Ok((detail("low", Some("1.0")), km(2))));
    match m.action() {
        DiscoveryAction::SamplePoint { .. } => {}
        other => panic!("expected a new sampling round, got {:?}", other),
    }
}

#[test]
fn empty_batch_leads_to_new_sampling_round() {
    let mut m = Discovery::new(request(1, 10, 0, 5));
    m.on_sampled(GeoPoint { lat_udeg: 0, lon_udeg: 0 });
    m.on_search(Ok(Vec::new()));
    match m.action() {
        DiscoveryAction::SamplePoint { .. } => {}
        other => panic!("expected a new sampling round, got {:?}", other),
    }
}

#[test]
fn cancellation_drops_partial_results() {
    let mut m = Discovery::new(request(2, 10, 0, 5));
    m.on_sampled(GeoPoint { lat_udeg: 0, lon_udeg: 0 });
    m.on_search(Ok(vec![candidate("kept")]));
    m.on_detail(Ok((detail("kept", Some("4.0")), km(2))));
    // one of two slots filled; the caller cancels before the next round
    m.on_cancelled();
    assert_eq!(m.outcome().unwrap_err(), GetRandomLocationError::Cancelled);
}

#[test]
fn make_location_info_copies_the_detail_fields() {
    let info: LocationInfo = make_location_info(detail("id9", Some("3.25")), km(7));
    assert_eq!(info.name, "place id9");
    assert_eq!(info.description.as_deref(), Some("a pleasant spot"));
    assert_eq!(info.website.as_deref(), Some("https://example.com"));
    assert_eq!(info.rating, Rating { hundredths: 325 });
    assert_eq!(info.address, "1 Main St, Springfield");
    assert_eq!(info.distance, km(7));
}

#[test]
fn phase_reports_finished_only_at_the_end() {
    let mut m = Discovery::new(request(1, 10, 0, 5));
    assert!(!m.is_finished());
    assert!(matches!(m.phase, Phase::AwaitSample));
    m.on_cancelled();
    assert!(m.is_finished());
}
