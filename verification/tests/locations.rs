//! Locations agree with those of `hydro_lang`.

use hydro_lang::compile::builder::{ClockId, FlowBuilder};
use hydro_lang::location::dynamic::LocationId as HydroLocation;
use hydro_lang::location::{Location, LocationKey};
use hydro_to_capsys::location::LocationId;

fn same(location: &HydroLocation, keys: &[LocationKey]) -> LocationId {
    let position =
        |key: &LocationKey| keys.iter().position(|known| known == key).unwrap() as u64;
    match location {
        HydroLocation::Process(key) => LocationId::Process(position(key)),
        HydroLocation::Cluster(key) => LocationId::Cluster(position(key)),
        HydroLocation::Atomic(tick) => LocationId::Atomic(Box::new(same(tick, keys))),
        HydroLocation::Tick(clock, id) => {
            LocationId::Tick(clock.into_inner(), Box::new(same(id, keys)))
        }
    }
}

#[test]
fn roots_and_equality_agree_with_hydro() {
    let mut builder = FlowBuilder::new();
    let process = builder.process::<()>().id();
    let first = builder.cluster::<()>().id();
    let second = builder.cluster::<()>().id();
    let _ = builder.finalize();
    let keys = [process.key(), first.key(), second.key()];

    let mut clock = ClockId::default();
    let mut locations = vec![process, first, second];
    for i in 0..3 {
        let id = clock.get_and_increment();
        let tick = HydroLocation::Tick(id, Box::new(locations[i].clone()));
        locations.push(HydroLocation::Atomic(Box::new(tick.clone())));
        locations.push(tick);
    }
    for a in &locations {
        assert_eq!(*same(a, &keys).root(), same(a.root(), &keys));
        for b in &locations {
            assert_eq!(same(a, &keys) == same(b, &keys), a == b);
            assert_eq!(
                same(a, &keys).root() == same(b, &keys).root(),
                a.root() == b.root()
            );
        }
    }
}
