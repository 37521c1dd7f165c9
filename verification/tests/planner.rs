use beertime::action::Action;
use beertime::beer::Beer;
use beertime::capacity::Capacity;
use beertime::equipment::Equipment;
use beertime::equipment_group::EquipmentGroup;
use beertime::error::PlanError;
use beertime::factory::Factory;
use beertime::interval::Interval;
use beertime::plan::Plan;
use beertime::recipe::Recipe;
use beertime::step_group::StepGroup;
use beertime::steps::Steps;
use beertime::style::Style;
use beertime::volume::Volume;

fn bier_recipe() -> Recipe {
    Recipe::new(
        Capacity::G10,
        Volume::GallonUS(10_000_000),
        Steps::new(
            Some(Interval::Hours(6)),
            Some(Interval::Days(7)),
            Some(Interval::Days(3)),
            Some(Interval::Weeks(2)),
            Some(Interval::Months(1)),
            Some(Interval::Days(2)),
        ),
    )
    .unwrap()
}

fn loons_landing(fermentors: usize) -> Factory {
    let mut factory = Factory::new("Loons Landing");
    factory
        .register_equipment(Equipment::new(
            "Mash Tun 15G G10".to_string(),
            Capacity::G10,
            EquipmentGroup::MashTun,
        ))
        .unwrap();
    factory
        .register_equipment(Equipment::new(
            "Kettle 15G G10".to_string(),
            Capacity::G10,
            EquipmentGroup::Kettle,
        ))
        .unwrap();
    for i in 0..fermentors {
        factory
            .register_equipment(Equipment::new(
                format!("Fermentor 15G G10 {}", i + 1),
                Capacity::G10,
                EquipmentGroup::Fermentor,
            ))
            .unwrap();
    }
    for i in 0..2 {
        factory
            .register_equipment(Equipment::new(
                format!("CO2 Tank 5Lb G10 {}", i + 1),
                Capacity::G10,
                EquipmentGroup::CO2Tank,
            ))
            .unwrap();
    }
    for i in 0..14 {
        factory
            .register_equipment(Equipment::new(
                format!("Keg 5G {}", i + 1),
                Capacity::G10,
                EquipmentGroup::Keg,
            ))
            .unwrap();
    }
    let beer = Beer::new("Bier".to_string(), Style::Pilsner, bier_recipe()).unwrap();
    factory.register_beer(beer).unwrap();
    factory
}

#[test]
fn test_single_beer_excess_capacity() {
    let factory = loons_landing(7);
    let wishlist = vec![("Bier".to_string(), Volume::GallonUS(30_000_000))];
    let batches = factory.calculate_batches(&wishlist).unwrap();
    assert_eq!(batches.len(), 3);
    for (k, batch) in batches.iter().enumerate() {
        assert_eq!(batch.id, k + 1);
        assert_eq!(&batch.beer_name, "Bier");
        assert_eq!(batch.system, Capacity::G10);
    }

    let earliest = 1_600_000_000;
    let plans = Plan::plan(&factory, &batches, earliest).unwrap();
    // three batches, six steps each; every step but the last of a batch
    // yields three records, the last two
    assert_eq!(plans.len(), 3 * (6 * 3 - 1));

    // brewing runs keep more than the six-hour gap, and no process
    // starts before the horizon
    let mut brew_starts = Vec::new();
    for p in plans.iter() {
        assert!(p.start >= earliest || !matches!(p.action, Action::Process(_)));
        if p.step_group == StepGroup::Brewing {
            if let Action::Process(_) = &p.action {
                assert!(p.start >= earliest);
                brew_starts.push(p.start);
            }
        }
    }
    assert_eq!(brew_starts.len(), 3);
    for a in 0..brew_starts.len() {
        for b in 0..brew_starts.len() {
            if a != b {
                assert!((brew_starts[a] - brew_starts[b]).abs() > 6 * 3600);
            }
        }
    }

    // no two actions overlap on the same vessel
    for p in plans.iter() {
        for q in plans.iter() {
            if p.id != q.id && p.batch_id != q.batch_id {
                let pe = match &p.action {
                    Action::Process(e) | Action::Clean(e) | Action::Transfer(e, _) => &e.name,
                };
                let qe = match &q.action {
                    Action::Process(e) | Action::Clean(e) | Action::Transfer(e, _) => &e.name,
                };
                if pe == qe {
                    assert!(p.end < q.start || q.end < p.start);
                }
            }
        }
    }
}

#[test]
fn test_residual_final_batch() {
    let factory = loons_landing(7);
    let wishlist = vec![("Bier".to_string(), Volume::GallonUS(25_000_000))];
    let batches = factory.calculate_batches(&wishlist).unwrap();
    assert_eq!(batches.len(), 3);
    assert_eq!(batches[0].volume, Volume::GallonUS(10_000_000));
    assert_eq!(batches[1].volume, Volume::GallonUS(10_000_000));
    // the last batch carries the residual: 25 gallons less two full
    // yields, in microlitres
    assert_eq!(batches[2].volume, Volume::Liter(18_927_060));
}

#[test]
fn test_infeasible_by_group() {
    let factory = loons_landing(0);
    let wishlist = vec![("Bier".to_string(), Volume::GallonUS(10_000_000))];
    let batches = factory.calculate_batches(&wishlist).unwrap();
    assert_eq!(batches.len(), 1);
    let planned = Plan::plan(&factory, &batches, 1_600_000_000);
    assert_eq!(planned, Err(PlanError::PlannerInfeasible));
}

#[test]
fn test_bottleneck_ordering() {
    // three 10G batches with a seven-day primary fermentation and seven
    // fermentors: the fermentor load per unit is three days, and no
    // other group bears more
    let mut factory = loons_landing(7);
    let recipe = Recipe::new(
        Capacity::G10,
        Volume::GallonUS(10_000_000),
        Steps::new(
            Some(Interval::Hours(6)),
            Some(Interval::Days(7)),
            None,
            None,
            None,
            None,
        ),
    )
    .unwrap();
    let ale = Beer::new("Pale Runner".to_string(), Style::IPA, recipe).unwrap();
    factory.register_beer(ale).unwrap();
    let wishlist = vec![("Pale Runner".to_string(), Volume::GallonUS(30_000_000))];
    let batches = factory.calculate_batches(&wishlist).unwrap();
    assert_eq!(batches.len(), 3);

    let per_step = factory.calculate_bottleneck_step(&batches);
    let per_group = factory.calculate_bottleneck_equipment(&per_step);
    let loads = factory.calculate_bottleneck(&per_group);
    assert_eq!(loads[0].0, Capacity::G10);
    assert_eq!(loads[0].1, EquipmentGroup::Fermentor);
    assert_eq!(loads[0].2, 3 * 7 * 86400 / 7);
    for entry in loads.iter().skip(1) {
        assert!(entry.2 <= 3 * 86400);
    }
}

#[test]
fn test_makespan_within_horizon_span() {
    // a single batch schedules all its steps back to back
    let factory = loons_landing(7);
    let wishlist = vec![("Bier".to_string(), Volume::GallonUS(10_000_000))];
    let batches = factory.calculate_batches(&wishlist).unwrap();
    assert_eq!(batches.len(), 1);
    let earliest = 1_600_000_000;
    let plans = Plan::plan(&factory, &batches, earliest).unwrap();
    assert_eq!(plans.len(), 6 * 3 - 1);
    // the batch starts at or after the horizon and every record is a
    // nonnegative span
    assert!(plans[0].start >= earliest);
    for p in plans.iter() {
        assert!(p.start <= p.end);
    }
}
