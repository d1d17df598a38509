use tax_engine::{
    Country, Jurisdiction, MemoryCache, Money, Rate, TaxBracket, TaxEntityType, TaxSchedule,
};

fn sample_schedule(tax_year: u16) -> TaxSchedule {
    TaxSchedule::new(
        tax_year,
        vec![TaxBracket {
            lower_bound: Money::from_units(0),
            upper_bound: Some(Money::from_units(50000)),
            rate: Rate::from_percent(10),
        }],
    )
}

#[test]
fn test_cache_set_get() {
    let mut cache = MemoryCache::new(60 * 1000);
    let jurisdiction = Jurisdiction::Federal(Country::USA);
    let entity_type = TaxEntityType::Individual;
    let tax_year = 2024;

    let schedule = sample_schedule(tax_year);

    let set_result = cache.set(&jurisdiction, &entity_type, tax_year, schedule.clone(), 0);
    assert!(set_result.is_ok());

    let get_result = cache.get(&jurisdiction, &entity_type, tax_year, 0);
    assert!(get_result.is_some());
    assert_eq!(get_result.unwrap().tax_year, tax_year);
}

#[test]
fn test_cache_expiration() {
    let mut cache = MemoryCache::new(100);
    let jurisdiction = Jurisdiction::Federal(Country::USA);
    let entity_type = TaxEntityType::Individual;
    let tax_year = 2024;

    let schedule = sample_schedule(tax_year);

    let _ = cache.set(&jurisdiction, &entity_type, tax_year, schedule, 0);

    // 150 ms later the entry has outlived the 100 ms time-to-live.
    let result = cache.get(&jurisdiction, &entity_type, tax_year, 150);
    assert!(result.is_none());
}

#[test]
fn test_cache_hit_just_before_expiry() {
    let mut cache = MemoryCache::new(100);
    let jurisdiction = Jurisdiction::Federal(Country::USA);
    let entity_type = TaxEntityType::Individual;

    let _ = cache.set(&jurisdiction, &entity_type, 2024, sample_schedule(2024), 1000);
    assert!(cache.get(&jurisdiction, &entity_type, 2024, 1099).is_some());
    assert!(cache.get(&jurisdiction, &entity_type, 2024, 1100).is_none());
}

#[test]
fn test_cache_overwrite_after_expiry_revalidates() {
    let mut cache = MemoryCache::new(100);
    let jurisdiction = Jurisdiction::Federal(Country::USA);
    let entity_type = TaxEntityType::Individual;

    let _ = cache.set(&jurisdiction, &entity_type, 2024, sample_schedule(2024), 0);
    assert!(cache.get(&jurisdiction, &entity_type, 2024, 150).is_none());

    // A write after expiry overwrites the stale entry and makes reads
    // valid again.
    let _ = cache.set(&jurisdiction, &entity_type, 2024, sample_schedule(2024), 150);
    assert!(cache.get(&jurisdiction, &entity_type, 2024, 200).is_some());
}

#[test]
fn test_cache_keys_are_distinct() {
    let mut cache = MemoryCache::new(60 * 1000);
    let usa = Jurisdiction::Federal(Country::USA);
    let canada = Jurisdiction::Federal(Country::Canada);

    let _ = cache.set(&usa, &TaxEntityType::Individual, 2024, sample_schedule(2024), 0);

    assert!(cache.get(&usa, &TaxEntityType::Individual, 2024, 0).is_some());
    assert!(cache.get(&canada, &TaxEntityType::Individual, 2024, 0).is_none());
    assert!(cache.get(&usa, &TaxEntityType::Corporation, 2024, 0).is_none());
    assert!(cache.get(&usa, &TaxEntityType::Individual, 2023, 0).is_none());
}

#[test]
fn test_cache_returns_stored_schedule() {
    let mut cache = MemoryCache::new(60 * 1000);
    let jurisdiction = Jurisdiction::Federal(Country::USA);
    let entity_type = TaxEntityType::Individual;

    let schedule = sample_schedule(2024);
    let _ = cache.set(&jurisdiction, &entity_type, 2024, schedule.clone(), 5);
    let got = cache.get(&jurisdiction, &entity_type, 2024, 10).unwrap();
    assert_eq!(got, schedule);
}

#[test]
fn test_cache_ttl_is_fixed_at_construction() {
    let cache = MemoryCache::new(3_600_000);
    assert_eq!(cache.ttl(), 3_600_000);
}
