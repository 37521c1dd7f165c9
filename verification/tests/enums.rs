use beertime::batch_size::BatchSize;
use beertime::beer_type::Type;
use beertime::volume::Volume;
use beertime::capacity::Capacity;
use beertime::equipment_group::EquipmentGroup;
use beertime::group::Group;
use beertime::interval::Interval;
use beertime::step_group::StepGroup;
use beertime::style::Style;
use beertime::system::System;
use beertime::work::Work;

#[test]
fn batch_size_test_system_lookup() {
    assert_eq!(BatchSize::G5.lookup(), "5G");
    assert_eq!(BatchSize::G10.lookup(), "10G");
    assert_eq!(BatchSize::BBL5.lookup(), "5BBL");
    assert_eq!(BatchSize::BBL7.lookup(), "7BBL");
    assert_eq!(BatchSize::BBL10.lookup(), "10BBL");
    assert_eq!(BatchSize::BBL15.lookup(), "15BBL");
}

#[test]
fn batch_size_test_style_parse() {
    assert_eq!("5G".parse(), Ok(BatchSize::G5));
    assert_eq!("10G".parse(), Ok(BatchSize::G10));
    assert_eq!("5BBL".parse(), Ok(BatchSize::BBL5));
    assert_eq!("10BBL".parse(), Ok(BatchSize::BBL10));
    assert_eq!("15BBL".parse(), Ok(BatchSize::BBL15));
}

#[test]
fn batch_size_test_system_volume() {
    assert_eq!(BatchSize::G5.volume(), Volume::GallonUS(5_000_000));
    assert_eq!(BatchSize::G10.volume(), Volume::GallonUS(10_000_000));
    assert_eq!(BatchSize::BBL5.volume(), Volume::BeerBarrel(5_000_000));
    assert_eq!(BatchSize::BBL7.volume(), Volume::BeerBarrel(7_000_000));
    assert_eq!(BatchSize::BBL10.volume(), Volume::BeerBarrel(10_000_000));
    assert_eq!(BatchSize::BBL15.volume(), Volume::BeerBarrel(15_000_000));
}

#[test]
fn batch_size_test_system_all() {
    assert_eq!(BatchSize::all().len(), 6);
}

#[test]
fn capacity_test_system_lookup() {
    assert_eq!(Capacity::G5.lookup(), "5G");
    assert_eq!(Capacity::G10.lookup(), "10G");
    assert_eq!(Capacity::G15.lookup(), "15G");
    assert_eq!(Capacity::BBL5.lookup(), "5BBL");
    assert_eq!(Capacity::BBL7.lookup(), "7BBL");
    assert_eq!(Capacity::BBL10.lookup(), "10BBL");
    assert_eq!(Capacity::BBL15.lookup(), "15BBL");
}

#[test]
fn capacity_test_style_parse() {
    assert_eq!("5G".parse(), Ok(Capacity::G5));
    assert_eq!("5g".parse(), Ok(Capacity::G5));
    assert_eq!("10G".parse(), Ok(Capacity::G10));
    assert_eq!("15g".parse(), Ok(Capacity::G15));
    assert_eq!("5BBL".parse(), Ok(Capacity::BBL5));
    assert_eq!("7bbl".parse(), Ok(Capacity::BBL7));
    assert_eq!("10BBL".parse(), Ok(Capacity::BBL10));
    assert_eq!("15BBL".parse(), Ok(Capacity::BBL15));
}

#[test]
fn test_system_capacity() {
    assert_eq!(Capacity::G5.volume(), Volume::GallonUS(5_000_000));
    assert_eq!(Capacity::G10.volume(), Volume::GallonUS(10_000_000));
    assert_eq!(Capacity::G15.volume(), Volume::GallonUS(15_000_000));
    assert_eq!(Capacity::BBL5.volume(), Volume::BeerBarrel(5_000_000));
    assert_eq!(Capacity::BBL7.volume(), Volume::BeerBarrel(7_000_000));
    assert_eq!(Capacity::BBL10.volume(), Volume::BeerBarrel(10_000_000));
    assert_eq!(Capacity::BBL15.volume(), Volume::BeerBarrel(15_000_000));
}

#[test]
fn capacity_test_system_all() {
    assert_eq!(Capacity::all().len(), 8);
}

#[test]
fn test_unit_token_rejects() {
    assert_eq!("5 Gallon".parse::<Capacity>(), Err(()));
    assert_eq!("5l".parse::<Capacity>(), Err(()));
}

#[test]
fn test_equipmentgroup_lookup() {
    assert_eq!(EquipmentGroup::MashTun.lookup(), "Mash Tun");
    assert_eq!(EquipmentGroup::HotLiquorTank.lookup(), "Hot Liqoor Tank");
    assert_eq!(EquipmentGroup::Kettle.lookup(), "Kettle");
    assert_eq!(EquipmentGroup::Fermentor.lookup(), "Fermentor");
    assert_eq!(EquipmentGroup::CO2Tank.lookup(), "CO2 Tank");
    assert_eq!(EquipmentGroup::Keg.lookup(), "Keg");
}

#[test]
fn test_equipmentgroup_parse() {
    assert_eq!("Mash Tun".parse(), Ok(EquipmentGroup::MashTun));
    assert_eq!("Lauter Tun".parse(), Ok(EquipmentGroup::LauterTun));
    assert_eq!("Hot Liquor Tank".parse(), Ok(EquipmentGroup::HotLiquorTank));
    assert_eq!("Kettle".parse(), Ok(EquipmentGroup::Kettle));
    assert_eq!("Fermentor".parse(), Ok(EquipmentGroup::Fermentor));
    assert_eq!("CO2 Tank".parse(), Ok(EquipmentGroup::CO2Tank));
    assert_eq!("Keg".parse(), Ok(EquipmentGroup::Keg));
}

#[test]
fn test_group_lookup() {
    assert_eq!(Group::Aging.lookup(), "Aging");
    assert_eq!(Group::Brewing.lookup(), "Brewing");
    assert_eq!(Group::Carbonation.lookup(), "Carbonation");
    assert_eq!(Group::DiactylRest.lookup(), "Diactyl Rest");
    assert_eq!(Group::PrimaryFermentation.lookup(), "Primary Fermentation");
    assert_eq!(Group::SecondaryFermentation.lookup(), "Secondary Fermentation");
}

#[test]
fn test_group_parse() {
    assert_eq!("Aging".parse(), Ok(Group::Aging));
    assert_eq!("Brewing".parse(), Ok(Group::Brewing));
    assert_eq!("Carbonation".parse(), Ok(Group::Carbonation));
    assert_eq!("Diactyl Rest".parse(), Ok(Group::DiactylRest));
    assert_eq!("Primary Fermentation".parse(), Ok(Group::PrimaryFermentation));
    assert_eq!(
        "Secondary Fermentation".parse(),
        Ok(Group::SecondaryFermentation)
    );
}

#[test]
fn test_interval_lookup() {
    assert_eq!(Interval::Hours(8).lookup(), "8h");
    assert_eq!(Interval::Days(8).lookup(), "8d");
    assert_eq!(Interval::Weeks(8).lookup(), "8w");
    assert_eq!(Interval::Months(8).lookup(), "8m");
}

#[test]
fn test_interval_parse() {
    assert_eq!("8h".parse(), Ok(Interval::Hours(8)));
    assert_eq!("8d".parse(), Ok(Interval::Days(8)));
    assert_eq!("8w".parse(), Ok(Interval::Weeks(8)));
    assert_eq!("8m".parse(), Ok(Interval::Months(8)));
}

#[test]
fn test_interval_duration() {
    assert_eq!(Interval::Hours(8).duration(), 8 * 3600);
    assert_eq!(Interval::Days(8).duration(), 8 * 24 * 3600);
    assert_eq!(Interval::Weeks(8).duration(), 8 * 7 * 24 * 3600);
    assert_eq!(Interval::Months(8).duration(), 8 * 30 * 24 * 3600);
}

#[test]
fn test_interval_range() {
    assert_eq!(
        Interval::Hours(5).range(),
        ((4 * 60 + 30) * 60, (5 * 60 + 30) * 60)
    );
    assert_eq!(
        Interval::Days(5).range(),
        ((24 * 5 - 8) * 3600, (24 * 5 + 8) * 3600)
    );
    assert_eq!(
        Interval::Weeks(5).range(),
        ((5 * 7 - 4) * 86400, (5 * 7 + 4) * 86400)
    );
    assert_eq!(
        Interval::Months(5).range(),
        ((5 * 30 - 7) * 86400, (5 * 30 + 7) * 86400)
    );
}

#[test]
fn test_stepgroup_post_process_time() {
    assert_eq!(StepGroup::Aging.post_process_time(&Capacity::G5), 2 * 60);
    assert_eq!(StepGroup::Aging.post_process_time(&Capacity::G10), 2 * 60);
    assert_eq!(StepGroup::Aging.post_process_time(&Capacity::BBL5), 4 * 60);
    assert_eq!(StepGroup::Aging.post_process_time(&Capacity::BBL7), 10 * 60);
    assert_eq!(StepGroup::Aging.post_process_time(&Capacity::BBL10), 20 * 60);
    assert_eq!(StepGroup::Aging.post_process_time(&Capacity::BBL15), 40 * 60);
    assert_eq!(StepGroup::Brewing.post_process_time(&Capacity::G10), 5 * 60);
}

#[test]
fn test_style_lookup() {
    assert_eq!(Style::AmberLager.lookup(), "Amber Lager");
    assert_eq!(Style::BlondeAle.lookup(), "Blonde Ale");
    assert_eq!(Style::BrownAle.lookup(), "Brown Ale");
    assert_eq!(Style::CaliforniaCommon.lookup(), "California Common");
    assert_eq!(Style::FruitBeer.lookup(), "Fruit Beer");
    assert_eq!(Style::IPA.lookup(), "IPA");
    assert_eq!(Style::ImperialStout.lookup(), "Imperial Stout");
    assert_eq!(Style::IrishRedAle.lookup(), "Irish Red Ale");
    assert_eq!(Style::Kellerbier.lookup(), "Kellerbier");
    assert_eq!(Style::Pilsner.lookup(), "Pilsner");
    assert_eq!(Style::SmokedAle.lookup(), "Smoked Ale");
    assert_eq!(Style::SpecialtyStout.lookup(), "Specialty Stout");
}

#[test]
fn style_test_style_parse() {
    assert_eq!("Amber Lager".parse(), Ok(Style::AmberLager));
    assert_eq!("Blonde Ale".parse(), Ok(Style::BlondeAle));
    assert_eq!("Brown Ale".parse(), Ok(Style::BrownAle));
    assert_eq!("California Common".parse(), Ok(Style::CaliforniaCommon));
    assert_eq!("Fruit Beer".parse(), Ok(Style::FruitBeer));
    assert_eq!("IPA".parse(), Ok(Style::IPA));
    assert_eq!("Imperial Stout".parse(), Ok(Style::ImperialStout));
    assert_eq!("Irish Red Ale".parse(), Ok(Style::IrishRedAle));
    assert_eq!("Kellerbier".parse(), Ok(Style::Kellerbier));
    assert_eq!("Pilsner".parse(), Ok(Style::Pilsner));
    assert_eq!("Smoked Ale".parse(), Ok(Style::SmokedAle));
    assert_eq!("Specialty Stout".parse(), Ok(Style::SpecialtyStout));
}

#[test]
fn test_style_type() {
    assert_eq!(Style::AmberLager.beer_type(), Type::Lager);
    assert_eq!(Style::Kellerbier.beer_type(), Type::Lager);
    assert_eq!(Style::Pilsner.beer_type(), Type::Lager);
    assert_eq!(Style::BlondeAle.beer_type(), Type::Ale);
    assert_eq!(Style::CaliforniaCommon.beer_type(), Type::Ale);
    assert_eq!(Style::FruitBeer.beer_type(), Type::Ale);
    assert_eq!(Style::IPA.beer_type(), Type::Ale);
    assert_eq!(Style::ImperialStout.beer_type(), Type::Ale);
    assert_eq!(Style::IrishRedAle.beer_type(), Type::Ale);
    assert_eq!(Style::SmokedAle.beer_type(), Type::Ale);
    assert_eq!(Style::SpecialtyStout.beer_type(), Type::Ale);
}

#[test]
fn system_test_system_lookup() {
    assert_eq!(System::G5.lookup(), "5G");
    assert_eq!(System::G10.lookup(), "10G");
    assert_eq!(System::BBL5.lookup(), "5BBL");
    assert_eq!(System::BBL7.lookup(), "7BBL");
    assert_eq!(System::BBL10.lookup(), "10BBL");
    assert_eq!(System::BBL15.lookup(), "15BBL");
}

#[test]
fn system_test_style_parse() {
    assert_eq!("5G".parse(), Ok(System::G5));
    assert_eq!("10G".parse(), Ok(System::G10));
    assert_eq!("5BBL".parse(), Ok(System::BBL5));
    assert_eq!("10BBL".parse(), Ok(System::BBL10));
    assert_eq!("15BBL".parse(), Ok(System::BBL15));
}

#[test]
fn system_test_system_volume() {
    assert_eq!(System::G5.volume(), Volume::GallonUS(5_000_000));
    assert_eq!(System::G10.volume(), Volume::GallonUS(10_000_000));
    assert_eq!(System::BBL5.volume(), Volume::GallonUS(210_000_000));
    assert_eq!(System::BBL7.volume(), Volume::GallonUS(294_000_000));
    assert_eq!(System::BBL10.volume(), Volume::GallonUS(420_000_000));
    assert_eq!(System::BBL15.volume(), Volume::GallonUS(630_000_000));
}

#[test]
fn test_type_diacetyl_rest() {
    assert_eq!(Type::Ale.needs_diacetyl_rest(), false);
    assert_eq!(Type::Lager.needs_diacetyl_rest(), true);
}

#[test]
fn test_work_lookup() {
    assert_eq!(Work::Transfer.lookup(), "Transfer");
    assert_eq!(Work::Clean.lookup(), "Clean");
}

#[test]
fn test_work_parse() {
    assert_eq!("Transfer".parse(), Ok(Work::Transfer));
    assert_eq!("Clean".parse(), Ok(Work::Clean));
}
