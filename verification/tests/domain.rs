use beertime::action::Action;
use beertime::batchneed::BatchNeed;
use beertime::beer::Beer;
use beertime::capacity::Capacity;
use beertime::equipment::Equipment;
use beertime::equipment_group::EquipmentGroup;
use beertime::error::PlanError;
use beertime::interval::Interval;
use beertime::plan::Plan;
use beertime::recipe::Recipe;
use beertime::step_group::StepGroup;
use beertime::steps::{StepIterator, Steps};
use beertime::style::Style;
use beertime::volume::Volume;

fn mock_equipment() -> Equipment {
    Equipment::new(
        "Foobar 2000".to_string(),
        Capacity::G14,
        EquipmentGroup::MashTun,
    )
}

fn mock_steps() -> Steps {
    Steps::new(
        Some(Interval::Hours(12)),
        Some(Interval::Days(11)),
        None,
        Some(Interval::Weeks(14)),
        Some(Interval::Months(4)),
        Some(Interval::Days(2)),
    )
}

#[test]
fn test_action_new() {
    let equipment = mock_equipment();
    let action = Action::Clean(equipment.clone());
    assert_eq!(action, Action::Clean(equipment));
}

#[test]
fn test_action_lookup() {
    let equipment_1 = mock_equipment();
    let action_1 = Action::Clean(equipment_1.clone());
    assert_eq!(action_1.lookup(), "Clean (Foobar 2000)");

    let action_2 = Action::Process(equipment_1.clone());
    assert_eq!(action_2.lookup(), "Process (Foobar 2000)");

    let equipment_2 = Equipment::new(
        "Foobar 2001".to_string(),
        Capacity::BBL5,
        EquipmentGroup::MashTun,
    );
    let action_3 = Action::Transfer(equipment_1, equipment_2);
    assert_eq!(action_3.lookup(), "Transfer (from Foobar 2000 to Foobar 2001)");
}

#[test]
fn test_action_resources() {
    let equipment_1 = mock_equipment();
    let action_1 = Action::Clean(equipment_1.clone());
    assert_eq!(
        action_1.resources(),
        vec!["Cleaner".to_string(), "Foobar 2000".to_string()]
    );

    let action_2 = Action::Process(equipment_1.clone());
    assert_eq!(action_2.resources(), vec!["Foobar 2000".to_string()]);

    let equipment_2 = Equipment::new(
        "Foobar 2001".to_string(),
        Capacity::BBL5,
        EquipmentGroup::MashTun,
    );
    let action_3 = Action::Transfer(equipment_1, equipment_2);
    assert_eq!(
        action_3.resources(),
        vec![
            "Pumper".to_string(),
            "Foobar 2000".to_string(),
            "Foobar 2001".to_string()
        ]
    );
}

#[test]
fn test_equimpment_new() {
    let equipment = mock_equipment();
    assert_eq!(&equipment.name, "Foobar 2000");
    assert_eq!(equipment.capacity, Capacity::G14);
    assert_eq!(equipment.equipment_group, EquipmentGroup::MashTun);
}

#[test]
fn test_equimpment_fits() {
    let equipment = mock_equipment();
    assert_eq!(equipment.can_hold(&Volume::GallonUS(14_900_000)), false);
    assert_eq!(equipment.can_hold(&Volume::GallonUS(5_000_000)), true);
}

#[test]
fn test_steps_new() {
    let steps = mock_steps();
    let mut collected = Vec::new();
    let mut it = StepIterator::new(&steps);
    while let Some(x) = it.next() {
        collected.push(x);
    }
    assert_eq!(
        collected,
        vec![
            (StepGroup::Brewing, Interval::Hours(12)),
            (StepGroup::PrimaryFermentation, Interval::Days(11)),
            (StepGroup::SecondaryFermentation, Interval::Weeks(14)),
            (StepGroup::Aging, Interval::Months(4)),
            (StepGroup::Carbonation, Interval::Days(2)),
        ]
    );
    assert_eq!(steps.range(), (18991800, 21011400));
    assert_eq!(steps.needs_diacetyl_rest(), false);
}

#[test]
fn test_batchneed_new() {
    let batchneed = BatchNeed::new(
        1,
        "foobeer 2000".to_string(),
        Capacity::BBL5,
        Volume::GallonUS(5_000_000),
    );
    assert_eq!(batchneed.id, 1);
    assert_eq!(&batchneed.beer_name, "foobeer 2000");
    assert_eq!(batchneed.system, Capacity::BBL5);
    assert_eq!(batchneed.volume, Volume::GallonUS(5_000_000));
}

#[test]
fn test_beer_new() {
    let recipe = Recipe::new(Capacity::G10, Volume::GallonUS(5_000_000), mock_steps()).unwrap();
    let beer = Beer::new("foobeer 2000".to_string(), Style::BlondeAle, recipe.clone()).unwrap();
    assert_eq!(&beer.name, "foobeer 2000");
    assert_eq!(beer.style, Style::BlondeAle);
    assert_eq!(beer.recipe, recipe);
}

#[test]
fn test_recipe_yield_over_capacity() {
    // a 14-gallon yield cannot come out of a 10-gallon system
    let r = Recipe::new(Capacity::G10, Volume::GallonUS(14_000_000), mock_steps());
    assert_eq!(r, Err(PlanError::RegistryInvariant));
}

#[test]
fn test_lager_missing_diacetyl_rest() {
    // a lager recipe without a diacetyl rest breaks the registry invariant
    let recipe = Recipe::new(Capacity::G10, Volume::GallonUS(5_000_000), mock_steps()).unwrap();
    let beer = Beer::new("bock 1".to_string(), Style::AmberLager, recipe);
    assert_eq!(beer, Err(PlanError::RegistryInvariant));
}

#[test]
fn test_plan_mocks() {
    let equipment = mock_equipment();
    let start = 1_609_329_255;
    let end = start + 2 * 3600;
    let plan = Plan::new(
        666,
        1,
        StepGroup::Brewing,
        Action::Process(equipment.clone()),
        start,
        end,
    );
    assert_eq!(plan.id, 666);
    assert_eq!(plan.batch_id, 1);
    assert_eq!(plan.step_group, StepGroup::Brewing);
    assert_eq!(plan.action, Action::Process(equipment));
    assert!(plan.start < plan.end);
}

#[test]
fn test_volume_round_trip() {
    // five US gallons survive the litre round trip to within a millionth
    let v = Volume::GallonUS(5_000_000);
    let l = v.to_liter();
    assert_eq!(l, Volume::Liter(18_927_058));
    assert_eq!(l.to_gallon_us(), Volume::GallonUS(4_999_999));
    // whole litres are exact
    let w = Volume::Liter(12_200_000);
    assert_eq!(w.to_liter(), Volume::Liter(12_200_000));
}

#[test]
fn test_volume_convert_bbl() {
    let v = Volume::BeerBarrel(7_000_000);
    assert_eq!(v.to_liter(), Volume::Liter(821_436_000));
    assert_eq!(v.to_gallon_us(), Volume::GallonUS(217_000_434));
}

#[test]
fn test_batch_count() {
    let need_gallons = Volume::GallonUS(10_000_000);
    let size = Volume::GallonUS(300_000);
    assert_eq!(need_gallons.full_batches(&size), 34);

    let need_liters = Volume::Liter(100_000_000);
    assert_eq!(need_liters.full_batches(&size), 89);
}

#[test]
fn test_volume_eq() {
    let ten = Volume::GallonUS(10_000_000);
    let one = Volume::GallonUS(1_000_000);
    assert_eq!(ten.ge(&one), true);
    assert_eq!(one.ge(&ten), false);
    assert_eq!(ten.ge(&ten), true);
}
