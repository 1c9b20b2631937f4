//! The building dialect: placement geometry, economy parameters, connection
//! points and construction-cost directives of a building configuration.

use vstd::prelude::*;
use crate::scan::{
    Span, Slot, Directive, DirectiveS, Arg, ArgS, GTok, ChunkS, scan, scan_src, table_view,
    lemma_scan_spans,
};
use crate::ini::{IniToken, IniTokenState, IniFile, ParseError, spans_wf};
use crate::text::{chars_of, range_text, text_eq};
use crate::fixp::{fixed_str, format_fixed, dec_str, to_dec, scale_fixed, abs1};
use crate::fixp::scale_coord;

verus! {

/// A 3D point with fixed-point coordinates.
#[derive(Clone, Copy, PartialEq, Eq, Structural, Debug)]
pub struct Point3f {
    pub x: i64,
    pub y: i64,
    pub z: i64,
}

/// An axis-aligned ground rectangle with fixed-point corners.
#[derive(Clone, Copy, PartialEq, Eq, Structural, Debug)]
pub struct Rect {
    pub x1: i64,
    pub z1: i64,
    pub x2: i64,
    pub z2: i64,
}

/// Owned directive text.
pub enum StrValue {
    Owned(Vec<char>),
}

impl StrValue {
    pub open spec fn text(&self) -> Seq<char> {
        match self {
            StrValue::Owned(v) => v@,
        }
    }

    pub fn value(&self) -> (r: &Vec<char>)
        ensures
            r@ == self.text(),
    {
        match self {
            StrValue::Owned(v) => v,
        }
    }
}

/// A quoted-string argument.
pub struct QuotedStringParam(pub StrValue);

impl QuotedStringParam {
    pub open spec fn text(&self) -> Seq<char> {
        self.0.text()
    }
}

/// A bare identifier argument (an object or node name).
pub struct IdStringParam(pub StrValue);

impl IdStringParam {
    pub open spec fn text(&self) -> Seq<char> {
        self.0.text()
    }

    pub fn value(&self) -> (r: &Vec<char>)
        ensures
            r@ == self.text(),
    {
        self.0.value()
    }
}

/// One directive of the building dialect.
pub enum Token {
    NameStr(QuotedStringParam),
    Name(u32),
    BuildingType(BuildingType),
    BuildingSubtype(BuildingSubtype),
    CivilBuilding,
    QualityOfLiving(i64),
    WorkersNeeded(u32),
    ProfessorsNeeded(u32),
    CitizenAbleServe(u32),
    Storage((StorageCargoType, i64)),
    ConnectionPedestrian((Point3f, Point3f)),
    ConnectionRoad((Point3f, Point3f)),
    ConnectionRoadDead(Point3f),
    ConnectionsRoadDeadSquare(Rect),
    Particle((ParticleType, Point3f, i64, i64)),
    TextCaption((Point3f, Point3f)),
    CostWork((ConstructionPhase, i64)),
    CostWorkBuildingNode(IdStringParam),
    CostWorkBuildingKeyword(IdStringParam),
    CostResource((ResourceType, i64)),
    CostResourceAuto((ConstructionAutoCost, i64)),
    CostWorkVehicleStation((Point3f, Point3f)),
    CostWorkVehicleStationNode(IdStringParam),
    StorageLivingAuto(IdStringParam),
}

/// BuildingType values as they appear in directive arguments.
#[derive(Clone, Copy, PartialEq, Eq, Structural, Debug)]
pub enum BuildingType {
    AirplaneGate,
    AirplaneParking,
    AirplaneTower,
    Attraction,
    Broadcast,
    CarDealer,
    CargoStation,
    Church,
    Cityhall,
    ConstructionOffice,
    ConstructionOfficeRail,
    ContainerFacility,
    CoolingTower,
    Customhouse,
    DistributionOffice,
    ElectricExport,
    ElectricImport,
    Engine,
    Factory,
    Farm,
    Field,
    Firestation,
    ForkliftGarage,
    GarbageOffice,
    GasStation,
    HeatingEndstation,
    HeatingPlant,
    HeatingSwitch,
    Hospital,
    Hotel,
    Kindergarten,
    Kino,
    Living,
    MineBauxite,
    MineCoal,
    MineGravel,
    MineIron,
    MineOil,
    MineUranium,
    MineWood,
    Monument,
    Parking,
    PassangerStation,
    PedestrianBridge,
    PoliceStation,
    PollutionMeter,
    Powerplant,
    ProductionLine,
    Pub,
    RailTrafo,
    Raildepo,
    Roaddepo,
    School,
    ShipDock,
    Shop,
    Sport,
    Storage,
    Substation,
    Transformator,
    University,
}

pub open spec fn building_type_of(w: Seq<char>) -> Option<BuildingType> {
    if w == "AIRPLANE_GATE"@ {
        Option::Some(BuildingType::AirplaneGate)
    } else if w == "AIRPLANE_PARKING"@ {
        Option::Some(BuildingType::AirplaneParking)
    } else if w == "AIRPLANE_TOWER"@ {
        Option::Some(BuildingType::AirplaneTower)
    } else if w == "ATTRACTION"@ {
        Option::Some(BuildingType::Attraction)
    } else if w == "BROADCAST"@ {
        Option::Some(BuildingType::Broadcast)
    } else if w == "CAR_DEALER"@ {
        Option::Some(BuildingType::CarDealer)
    } else if w == "CARGO_STATION"@ {
        Option::Some(BuildingType::CargoStation)
    } else if w == "CHURCH"@ {
        Option::Some(BuildingType::Church)
    } else if w == "CITYHALL"@ {
        Option::Some(BuildingType::Cityhall)
    } else if w == "CONSTRUCTION_OFFICE"@ {
        Option::Some(BuildingType::ConstructionOffice)
    } else if w == "CONSTRUCTION_OFFICE_RAIL"@ {
        Option::Some(BuildingType::ConstructionOfficeRail)
    } else if w == "CONTAINER_FACILITY"@ {
        Option::Some(BuildingType::ContainerFacility)
    } else if w == "COOLING_TOWER"@ {
        Option::Some(BuildingType::CoolingTower)
    } else if w == "CUSTOMHOUSE"@ {
        Option::Some(BuildingType::Customhouse)
    } else if w == "DISTRIBUTION_OFFICE"@ {
        Option::Some(BuildingType::DistributionOffice)
    } else if w == "ELETRIC_EXPORT"@ {
        Option::Some(BuildingType::ElectricExport)
    } else if w == "ELETRIC_IMPORT"@ {
        Option::Some(BuildingType::ElectricImport)
    } else if w == "ENGINE"@ {
        Option::Some(BuildingType::Engine)
    } else if w == "FACTORY"@ {
        Option::Some(BuildingType::Factory)
    } else if w == "FARM"@ {
        Option::Some(BuildingType::Farm)
    } else if w == "FIELD"@ {
        Option::Some(BuildingType::Field)
    } else if w == "FIRESTATION"@ {
        Option::Some(BuildingType::Firestation)
    } else if w == "FORKLIFT_GARAGE"@ {
        Option::Some(BuildingType::ForkliftGarage)
    } else if w == "GARBAGE_OFFICE"@ {
        Option::Some(BuildingType::GarbageOffice)
    } else if w == "GAS_STATION"@ {
        Option::Some(BuildingType::GasStation)
    } else if w == "HEATING_ENDSTATION"@ {
        Option::Some(BuildingType::HeatingEndstation)
    } else if w == "HEATING_PLANT"@ {
        Option::Some(BuildingType::HeatingPlant)
    } else if w == "HEATING_SWITCH"@ {
        Option::Some(BuildingType::HeatingSwitch)
    } else if w == "HOSPITAL"@ {
        Option::Some(BuildingType::Hospital)
    } else if w == "HOTEL"@ {
        Option::Some(BuildingType::Hotel)
    } else if w == "KINDERGARTEN"@ {
        Option::Some(BuildingType::Kindergarten)
    } else if w == "KINO"@ {
        Option::Some(BuildingType::Kino)
    } else if w == "LIVING"@ {
        Option::Some(BuildingType::Living)
    } else if w == "MINE_BAUXITE"@ {
        Option::Some(BuildingType::MineBauxite)
    } else if w == "MINE_COAL"@ {
        Option::Some(BuildingType::MineCoal)
    } else if w == "MINE_GRAVEL"@ {
        Option::Some(BuildingType::MineGravel)
    } else if w == "MINE_IRON"@ {
        Option::Some(BuildingType::MineIron)
    } else if w == "MINE_OIL"@ {
        Option::Some(BuildingType::MineOil)
    } else if w == "MINE_URANIUM"@ {
        Option::Some(BuildingType::MineUranium)
    } else if w == "MINE_WOOD"@ {
        Option::Some(BuildingType::MineWood)
    } else if w == "MONUMENT"@ {
        Option::Some(BuildingType::Monument)
    } else if w == "PARKING"@ {
        Option::Some(BuildingType::Parking)
    } else if w == "PASSANGER_STATION"@ {
        Option::Some(BuildingType::PassangerStation)
    } else if w == "PEDESTRIAN_BRIDGE"@ {
        Option::Some(BuildingType::PedestrianBridge)
    } else if w == "POLICE_STATION"@ {
        Option::Some(BuildingType::PoliceStation)
    } else if w == "POLLUTION_METER"@ {
        Option::Some(BuildingType::PollutionMeter)
    } else if w == "POWERPLANT"@ {
        Option::Some(BuildingType::Powerplant)
    } else if w == "PRODUCTION_LINE"@ {
        Option::Some(BuildingType::ProductionLine)
    } else if w == "PUB"@ {
        Option::Some(BuildingType::Pub)
    } else if w == "RAIL_TRAFO"@ {
        Option::Some(BuildingType::RailTrafo)
    } else if w == "RAILDEPO"@ {
        Option::Some(BuildingType::Raildepo)
    } else if w == "ROADDEPO"@ {
        Option::Some(BuildingType::Roaddepo)
    } else if w == "SCHOOL"@ {
        Option::Some(BuildingType::School)
    } else if w == "SHIP_DOCK"@ {
        Option::Some(BuildingType::ShipDock)
    } else if w == "SHOP"@ {
        Option::Some(BuildingType::Shop)
    } else if w == "SPORT"@ {
        Option::Some(BuildingType::Sport)
    } else if w == "STORAGE"@ {
        Option::Some(BuildingType::Storage)
    } else if w == "SUBSTATION"@ {
        Option::Some(BuildingType::Substation)
    } else if w == "TRANSFORMATOR"@ {
        Option::Some(BuildingType::Transformator)
    } else if w == "UNIVERSITY"@ {
        Option::Some(BuildingType::University)
    } else {
        Option::None
    }
}

pub open spec fn building_type_name(x: BuildingType) -> Seq<char> {
    match x {
        BuildingType::AirplaneGate => "AIRPLANE_GATE"@,
        BuildingType::AirplaneParking => "AIRPLANE_PARKING"@,
        BuildingType::AirplaneTower => "AIRPLANE_TOWER"@,
        BuildingType::Attraction => "ATTRACTION"@,
        BuildingType::Broadcast => "BROADCAST"@,
        BuildingType::CarDealer => "CAR_DEALER"@,
        BuildingType::CargoStation => "CARGO_STATION"@,
        BuildingType::Church => "CHURCH"@,
        BuildingType::Cityhall => "CITYHALL"@,
        BuildingType::ConstructionOffice => "CONSTRUCTION_OFFICE"@,
        BuildingType::ConstructionOfficeRail => "CONSTRUCTION_OFFICE_RAIL"@,
        BuildingType::ContainerFacility => "CONTAINER_FACILITY"@,
        BuildingType::CoolingTower => "COOLING_TOWER"@,
        BuildingType::Customhouse => "CUSTOMHOUSE"@,
        BuildingType::DistributionOffice => "DISTRIBUTION_OFFICE"@,
        BuildingType::ElectricExport => "ELETRIC_EXPORT"@,
        BuildingType::ElectricImport => "ELETRIC_IMPORT"@,
        BuildingType::Engine => "ENGINE"@,
        BuildingType::Factory => "FACTORY"@,
        BuildingType::Farm => "FARM"@,
        BuildingType::Field => "FIELD"@,
        BuildingType::Firestation => "FIRESTATION"@,
        BuildingType::ForkliftGarage => "FORKLIFT_GARAGE"@,
        BuildingType::GarbageOffice => "GARBAGE_OFFICE"@,
        BuildingType::GasStation => "GAS_STATION"@,
        BuildingType::HeatingEndstation => "HEATING_ENDSTATION"@,
        BuildingType::HeatingPlant => "HEATING_PLANT"@,
        BuildingType::HeatingSwitch => "HEATING_SWITCH"@,
        BuildingType::Hospital => "HOSPITAL"@,
        BuildingType::Hotel => "HOTEL"@,
        BuildingType::Kindergarten => "KINDERGARTEN"@,
        BuildingType::Kino => "KINO"@,
        BuildingType::Living => "LIVING"@,
        BuildingType::MineBauxite => "MINE_BAUXITE"@,
        BuildingType::MineCoal => "MINE_COAL"@,
        BuildingType::MineGravel => "MINE_GRAVEL"@,
        BuildingType::MineIron => "MINE_IRON"@,
        BuildingType::MineOil => "MINE_OIL"@,
        BuildingType::MineUranium => "MINE_URANIUM"@,
        BuildingType::MineWood => "MINE_WOOD"@,
        BuildingType::Monument => "MONUMENT"@,
        BuildingType::Parking => "PARKING"@,
        BuildingType::PassangerStation => "PASSANGER_STATION"@,
        BuildingType::PedestrianBridge => "PEDESTRIAN_BRIDGE"@,
        BuildingType::PoliceStation => "POLICE_STATION"@,
        BuildingType::PollutionMeter => "POLLUTION_METER"@,
        BuildingType::Powerplant => "POWERPLANT"@,
        BuildingType::ProductionLine => "PRODUCTION_LINE"@,
        BuildingType::Pub => "PUB"@,
        BuildingType::RailTrafo => "RAIL_TRAFO"@,
        BuildingType::Raildepo => "RAILDEPO"@,
        BuildingType::Roaddepo => "ROADDEPO"@,
        BuildingType::School => "SCHOOL"@,
        BuildingType::ShipDock => "SHIP_DOCK"@,
        BuildingType::Shop => "SHOP"@,
        BuildingType::Sport => "SPORT"@,
        BuildingType::Storage => "STORAGE"@,
        BuildingType::Substation => "SUBSTATION"@,
        BuildingType::Transformator => "TRANSFORMATOR"@,
        BuildingType::University => "UNIVERSITY"@,
    }
}

pub fn parse_building_type(w: &Vec<char>) -> (r: Option<BuildingType>)
    ensures
        r == building_type_of(w@),
{
    if text_eq(w, &chars_of("AIRPLANE_GATE")) {
        Some(BuildingType::AirplaneGate)
    } else if text_eq(w, &chars_of("AIRPLANE_PARKING")) {
        Some(BuildingType::AirplaneParking)
    } else if text_eq(w, &chars_of("AIRPLANE_TOWER")) {
        Some(BuildingType::AirplaneTower)
    } else if text_eq(w, &chars_of("ATTRACTION")) {
        Some(BuildingType::Attraction)
    } else if text_eq(w, &chars_of("BROADCAST")) {
        Some(BuildingType::Broadcast)
    } else if text_eq(w, &chars_of("CAR_DEALER")) {
        Some(BuildingType::CarDealer)
    } else if text_eq(w, &chars_of("CARGO_STATION")) {
        Some(BuildingType::CargoStation)
    } else if text_eq(w, &chars_of("CHURCH")) {
        Some(BuildingType::Church)
    } else if text_eq(w, &chars_of("CITYHALL")) {
        Some(BuildingType::Cityhall)
    } else if text_eq(w, &chars_of("CONSTRUCTION_OFFICE")) {
        Some(BuildingType::ConstructionOffice)
    } else if text_eq(w, &chars_of("CONSTRUCTION_OFFICE_RAIL")) {
        Some(BuildingType::ConstructionOfficeRail)
    } else if text_eq(w, &chars_of("CONTAINER_FACILITY")) {
        Some(BuildingType::ContainerFacility)
    } else if text_eq(w, &chars_of("COOLING_TOWER")) {
        Some(BuildingType::CoolingTower)
    } else if text_eq(w, &chars_of("CUSTOMHOUSE")) {
        Some(BuildingType::Customhouse)
    } else if text_eq(w, &chars_of("DISTRIBUTION_OFFICE")) {
        Some(BuildingType::DistributionOffice)
    } else if text_eq(w, &chars_of("ELETRIC_EXPORT")) {
        Some(BuildingType::ElectricExport)
    } else if text_eq(w, &chars_of("ELETRIC_IMPORT")) {
        Some(BuildingType::ElectricImport)
    } else if text_eq(w, &chars_of("ENGINE")) {
        Some(BuildingType::Engine)
    } else if text_eq(w, &chars_of("FACTORY")) {
        Some(BuildingType::Factory)
    } else if text_eq(w, &chars_of("FARM")) {
        Some(BuildingType::Farm)
    } else if text_eq(w, &chars_of("FIELD")) {
        Some(BuildingType::Field)
    } else if text_eq(w, &chars_of("FIRESTATION")) {
        Some(BuildingType::Firestation)
    } else if text_eq(w, &chars_of("FORKLIFT_GARAGE")) {
        Some(BuildingType::ForkliftGarage)
    } else if text_eq(w, &chars_of("GARBAGE_OFFICE")) {
        Some(BuildingType::GarbageOffice)
    } else if text_eq(w, &chars_of("GAS_STATION")) {
        Some(BuildingType::GasStation)
    } else if text_eq(w, &chars_of("HEATING_ENDSTATION")) {
        Some(BuildingType::HeatingEndstation)
    } else if text_eq(w, &chars_of("HEATING_PLANT")) {
        Some(BuildingType::HeatingPlant)
    } else if text_eq(w, &chars_of("HEATING_SWITCH")) {
        Some(BuildingType::HeatingSwitch)
    } else if text_eq(w, &chars_of("HOSPITAL")) {
        Some(BuildingType::Hospital)
    } else if text_eq(w, &chars_of("HOTEL")) {
        Some(BuildingType::Hotel)
    } else if text_eq(w, &chars_of("KINDERGARTEN")) {
        Some(BuildingType::Kindergarten)
    } else if text_eq(w, &chars_of("KINO")) {
        Some(BuildingType::Kino)
    } else if text_eq(w, &chars_of("LIVING")) {
        Some(BuildingType::Living)
    } else if text_eq(w, &chars_of("MINE_BAUXITE")) {
        Some(BuildingType::MineBauxite)
    } else if text_eq(w, &chars_of("MINE_COAL")) {
        Some(BuildingType::MineCoal)
    } else if text_eq(w, &chars_of("MINE_GRAVEL")) {
        Some(BuildingType::MineGravel)
    } else if text_eq(w, &chars_of("MINE_IRON")) {
        Some(BuildingType::MineIron)
    } else if text_eq(w, &chars_of("MINE_OIL")) {
        Some(BuildingType::MineOil)
    } else if text_eq(w, &chars_of("MINE_URANIUM")) {
        Some(BuildingType::MineUranium)
    } else if text_eq(w, &chars_of("MINE_WOOD")) {
        Some(BuildingType::MineWood)
    } else if text_eq(w, &chars_of("MONUMENT")) {
        Some(BuildingType::Monument)
    } else if text_eq(w, &chars_of("PARKING")) {
        Some(BuildingType::Parking)
    } else if text_eq(w, &chars_of("PASSANGER_STATION")) {
        Some(BuildingType::PassangerStation)
    } else if text_eq(w, &chars_of("PEDESTRIAN_BRIDGE")) {
        Some(BuildingType::PedestrianBridge)
    } else if text_eq(w, &chars_of("POLICE_STATION")) {
        Some(BuildingType::PoliceStation)
    } else if text_eq(w, &chars_of("POLLUTION_METER")) {
        Some(BuildingType::PollutionMeter)
    } else if text_eq(w, &chars_of("POWERPLANT")) {
        Some(BuildingType::Powerplant)
    } else if text_eq(w, &chars_of("PRODUCTION_LINE")) {
        Some(BuildingType::ProductionLine)
    } else if text_eq(w, &chars_of("PUB")) {
        Some(BuildingType::Pub)
    } else if text_eq(w, &chars_of("RAIL_TRAFO")) {
        Some(BuildingType::RailTrafo)
    } else if text_eq(w, &chars_of("RAILDEPO")) {
        Some(BuildingType::Raildepo)
    } else if text_eq(w, &chars_of("ROADDEPO")) {
        Some(BuildingType::Roaddepo)
    } else if text_eq(w, &chars_of("SCHOOL")) {
        Some(BuildingType::School)
    } else if text_eq(w, &chars_of("SHIP_DOCK")) {
        Some(BuildingType::ShipDock)
    } else if text_eq(w, &chars_of("SHOP")) {
        Some(BuildingType::Shop)
    } else if text_eq(w, &chars_of("SPORT")) {
        Some(BuildingType::Sport)
    } else if text_eq(w, &chars_of("STORAGE")) {
        Some(BuildingType::Storage)
    } else if text_eq(w, &chars_of("SUBSTATION")) {
        Some(BuildingType::Substation)
    } else if text_eq(w, &chars_of("TRANSFORMATOR")) {
        Some(BuildingType::Transformator)
    } else if text_eq(w, &chars_of("UNIVERSITY")) {
        Some(BuildingType::University)
    } else {
        None
    }
}

impl BuildingType {
    /// The directive text of this value.
    pub fn name(&self) -> (r: &'static str)
        ensures
            r@ == building_type_name(*self),
    {
        match self {
            BuildingType::AirplaneGate => "AIRPLANE_GATE",
            BuildingType::AirplaneParking => "AIRPLANE_PARKING",
            BuildingType::AirplaneTower => "AIRPLANE_TOWER",
            BuildingType::Attraction => "ATTRACTION",
            BuildingType::Broadcast => "BROADCAST",
            BuildingType::CarDealer => "CAR_DEALER",
            BuildingType::CargoStation => "CARGO_STATION",
            BuildingType::Church => "CHURCH",
            BuildingType::Cityhall => "CITYHALL",
            BuildingType::ConstructionOffice => "CONSTRUCTION_OFFICE",
            BuildingType::ConstructionOfficeRail => "CONSTRUCTION_OFFICE_RAIL",
            BuildingType::ContainerFacility => "CONTAINER_FACILITY",
            BuildingType::CoolingTower => "COOLING_TOWER",
            BuildingType::Customhouse => "CUSTOMHOUSE",
            BuildingType::DistributionOffice => "DISTRIBUTION_OFFICE",
            BuildingType::ElectricExport => "ELETRIC_EXPORT",
            BuildingType::ElectricImport => "ELETRIC_IMPORT",
            BuildingType::Engine => "ENGINE",
            BuildingType::Factory => "FACTORY",
            BuildingType::Farm => "FARM",
            BuildingType::Field => "FIELD",
            BuildingType::Firestation => "FIRESTATION",
            BuildingType::ForkliftGarage => "FORKLIFT_GARAGE",
            BuildingType::GarbageOffice => "GARBAGE_OFFICE",
            BuildingType::GasStation => "GAS_STATION",
            BuildingType::HeatingEndstation => "HEATING_ENDSTATION",
            BuildingType::HeatingPlant => "HEATING_PLANT",
            BuildingType::HeatingSwitch => "HEATING_SWITCH",
            BuildingType::Hospital => "HOSPITAL",
            BuildingType::Hotel => "HOTEL",
            BuildingType::Kindergarten => "KINDERGARTEN",
            BuildingType::Kino => "KINO",
            BuildingType::Living => "LIVING",
            BuildingType::MineBauxite => "MINE_BAUXITE",
            BuildingType::MineCoal => "MINE_COAL",
            BuildingType::MineGravel => "MINE_GRAVEL",
            BuildingType::MineIron => "MINE_IRON",
            BuildingType::MineOil => "MINE_OIL",
            BuildingType::MineUranium => "MINE_URANIUM",
            BuildingType::MineWood => "MINE_WOOD",
            BuildingType::Monument => "MONUMENT",
            BuildingType::Parking => "PARKING",
            BuildingType::PassangerStation => "PASSANGER_STATION",
            BuildingType::PedestrianBridge => "PEDESTRIAN_BRIDGE",
            BuildingType::PoliceStation => "POLICE_STATION",
            BuildingType::PollutionMeter => "POLLUTION_METER",
            BuildingType::Powerplant => "POWERPLANT",
            BuildingType::ProductionLine => "PRODUCTION_LINE",
            BuildingType::Pub => "PUB",
            BuildingType::RailTrafo => "RAIL_TRAFO",
            BuildingType::Raildepo => "RAILDEPO",
            BuildingType::Roaddepo => "ROADDEPO",
            BuildingType::School => "SCHOOL",
            BuildingType::ShipDock => "SHIP_DOCK",
            BuildingType::Shop => "SHOP",
            BuildingType::Sport => "SPORT",
            BuildingType::Storage => "STORAGE",
            BuildingType::Substation => "SUBSTATION",
            BuildingType::Transformator => "TRANSFORMATOR",
            BuildingType::University => "UNIVERSITY",
        }
    }
}

/// BuildingSubtype values as they appear in directive arguments.
#[derive(Clone, Copy, PartialEq, Eq, Structural, Debug)]
pub enum BuildingSubtype {
    Aircustom,
    Airplane,
    Cableway,
    Hostel,
    Medical,
    Radio,
    Rail,
    Restaurant,
    Road,
    Ship,
    Soviet,
    SpaceForVehicles,
    Technical,
    Television,
    Trolleybus,
}

pub open spec fn building_subtype_of(w: Seq<char>) -> Option<BuildingSubtype> {
    if w == "AIRCUSTOM"@ {
        Option::Some(BuildingSubtype::Aircustom)
    } else if w == "AIRPLANE"@ {
        Option::Some(BuildingSubtype::Airplane)
    } else if w == "CABLEWAY"@ {
        Option::Some(BuildingSubtype::Cableway)
    } else if w == "HOSTEL"@ {
        Option::Some(BuildingSubtype::Hostel)
    } else if w == "MEDICAL"@ {
        Option::Some(BuildingSubtype::Medical)
    } else if w == "RADIO"@ {
        Option::Some(BuildingSubtype::Radio)
    } else if w == "RAIL"@ {
        Option::Some(BuildingSubtype::Rail)
    } else if w == "RESTAURANT"@ {
        Option::Some(BuildingSubtype::Restaurant)
    } else if w == "ROAD"@ {
        Option::Some(BuildingSubtype::Road)
    } else if w == "SHIP"@ {
        Option::Some(BuildingSubtype::Ship)
    } else if w == "SOVIET"@ {
        Option::Some(BuildingSubtype::Soviet)
    } else if w == "SPACE_FOR_VEHICLES"@ {
        Option::Some(BuildingSubtype::SpaceForVehicles)
    } else if w == "TECHNICAL"@ {
        Option::Some(BuildingSubtype::Technical)
    } else if w == "TELEVISION"@ {
        Option::Some(BuildingSubtype::Television)
    } else if w == "TROLLEYBUS"@ {
        Option::Some(BuildingSubtype::Trolleybus)
    } else {
        Option::None
    }
}

pub open spec fn building_subtype_name(x: BuildingSubtype) -> Seq<char> {
    match x {
        BuildingSubtype::Aircustom => "AIRCUSTOM"@,
        BuildingSubtype::Airplane => "AIRPLANE"@,
        BuildingSubtype::Cableway => "CABLEWAY"@,
        BuildingSubtype::Hostel => "HOSTEL"@,
        BuildingSubtype::Medical => "MEDICAL"@,
        BuildingSubtype::Radio => "RADIO"@,
        BuildingSubtype::Rail => "RAIL"@,
        BuildingSubtype::Restaurant => "RESTAURANT"@,
        BuildingSubtype::Road => "ROAD"@,
        BuildingSubtype::Ship => "SHIP"@,
        BuildingSubtype::Soviet => "SOVIET"@,
        BuildingSubtype::SpaceForVehicles => "SPACE_FOR_VEHICLES"@,
        BuildingSubtype::Technical => "TECHNICAL"@,
        BuildingSubtype::Television => "TELEVISION"@,
        BuildingSubtype::Trolleybus => "TROLLEYBUS"@,
    }
}

pub fn parse_building_subtype(w: &Vec<char>) -> (r: Option<BuildingSubtype>)
    ensures
        r == building_subtype_of(w@),
{
    if text_eq(w, &chars_of("AIRCUSTOM")) {
        Some(BuildingSubtype::Aircustom)
    } else if text_eq(w, &chars_of("AIRPLANE")) {
        Some(BuildingSubtype::Airplane)
    } else if text_eq(w, &chars_of("CABLEWAY")) {
        Some(BuildingSubtype::Cableway)
    } else if text_eq(w, &chars_of("HOSTEL")) {
        Some(BuildingSubtype::Hostel)
    } else if text_eq(w, &chars_of("MEDICAL")) {
        Some(BuildingSubtype::Medical)
    } else if text_eq(w, &chars_of("RADIO")) {
        Some(BuildingSubtype::Radio)
    } else if text_eq(w, &chars_of("RAIL")) {
        Some(BuildingSubtype::Rail)
    } else if text_eq(w, &chars_of("RESTAURANT")) {
        Some(BuildingSubtype::Restaurant)
    } else if text_eq(w, &chars_of("ROAD")) {
        Some(BuildingSubtype::Road)
    } else if text_eq(w, &chars_of("SHIP")) {
        Some(BuildingSubtype::Ship)
    } else if text_eq(w, &chars_of("SOVIET")) {
        Some(BuildingSubtype::Soviet)
    } else if text_eq(w, &chars_of("SPACE_FOR_VEHICLES")) {
        Some(BuildingSubtype::SpaceForVehicles)
    } else if text_eq(w, &chars_of("TECHNICAL")) {
        Some(BuildingSubtype::Technical)
    } else if text_eq(w, &chars_of("TELEVISION")) {
        Some(BuildingSubtype::Television)
    } else if text_eq(w, &chars_of("TROLLEYBUS")) {
        Some(BuildingSubtype::Trolleybus)
    } else {
        None
    }
}

impl BuildingSubtype {
    /// The directive text of this value.
    pub fn name(&self) -> (r: &'static str)
        ensures
            r@ == building_subtype_name(*self),
    {
        match self {
            BuildingSubtype::Aircustom => "AIRCUSTOM",
            BuildingSubtype::Airplane => "AIRPLANE",
            BuildingSubtype::Cableway => "CABLEWAY",
            BuildingSubtype::Hostel => "HOSTEL",
            BuildingSubtype::Medical => "MEDICAL",
            BuildingSubtype::Radio => "RADIO",
            BuildingSubtype::Rail => "RAIL",
            BuildingSubtype::Restaurant => "RESTAURANT",
            BuildingSubtype::Road => "ROAD",
            BuildingSubtype::Ship => "SHIP",
            BuildingSubtype::Soviet => "SOVIET",
            BuildingSubtype::SpaceForVehicles => "SPACE_FOR_VEHICLES",
            BuildingSubtype::Technical => "TECHNICAL",
            BuildingSubtype::Television => "TELEVISION",
            BuildingSubtype::Trolleybus => "TROLLEYBUS",
        }
    }
}

/// StorageCargoType values as they appear in directive arguments.
#[derive(Clone, Copy, PartialEq, Eq, Structural, Debug)]
pub enum StorageCargoType {
    Passanger,
    Cement,
    Covered,
    Gravel,
    Oil,
    Open,
    Cooler,
    Concrete,
    Livestock,
    General,
}

pub open spec fn storage_cargo_of(w: Seq<char>) -> Option<StorageCargoType> {
    if w == "RESOURCE_TRANSPORT_PASSANGER"@ {
        Option::Some(StorageCargoType::Passanger)
    } else if w == "RESOURCE_TRANSPORT_CEMENT"@ {
        Option::Some(StorageCargoType::Cement)
    } else if w == "RESOURCE_TRANSPORT_COVERED"@ {
        Option::Some(StorageCargoType::Covered)
    } else if w == "RESOURCE_TRANSPORT_GRAVEL"@ {
        Option::Some(StorageCargoType::Gravel)
    } else if w == "RESOURCE_TRANSPORT_OIL"@ {
        Option::Some(StorageCargoType::Oil)
    } else if w == "RESOURCE_TRANSPORT_OPEN"@ {
        Option::Some(StorageCargoType::Open)
    } else if w == "RESOURCE_TRANSPORT_COOLER"@ {
        Option::Some(StorageCargoType::Cooler)
    } else if w == "RESOURCE_TRANSPORT_CONCRETE"@ {
        Option::Some(StorageCargoType::Concrete)
    } else if w == "RESOURCE_TRANSPORT_LIVESTOCK"@ {
        Option::Some(StorageCargoType::Livestock)
    } else if w == "RESOURCE_TRANSPORT_GENERAL"@ {
        Option::Some(StorageCargoType::General)
    } else {
        Option::None
    }
}

pub open spec fn storage_cargo_name(x: StorageCargoType) -> Seq<char> {
    match x {
        StorageCargoType::Passanger => "RESOURCE_TRANSPORT_PASSANGER"@,
        StorageCargoType::Cement => "RESOURCE_TRANSPORT_CEMENT"@,
        StorageCargoType::Covered => "RESOURCE_TRANSPORT_COVERED"@,
        StorageCargoType::Gravel => "RESOURCE_TRANSPORT_GRAVEL"@,
        StorageCargoType::Oil => "RESOURCE_TRANSPORT_OIL"@,
        StorageCargoType::Open => "RESOURCE_TRANSPORT_OPEN"@,
        StorageCargoType::Cooler => "RESOURCE_TRANSPORT_COOLER"@,
        StorageCargoType::Concrete => "RESOURCE_TRANSPORT_CONCRETE"@,
        StorageCargoType::Livestock => "RESOURCE_TRANSPORT_LIVESTOCK"@,
        StorageCargoType::General => "RESOURCE_TRANSPORT_GENERAL"@,
    }
}

pub fn parse_storage_cargo(w: &Vec<char>) -> (r: Option<StorageCargoType>)
    ensures
        r == storage_cargo_of(w@),
{
    if text_eq(w, &chars_of("RESOURCE_TRANSPORT_PASSANGER")) {
        Some(StorageCargoType::Passanger)
    } else if text_eq(w, &chars_of("RESOURCE_TRANSPORT_CEMENT")) {
        Some(StorageCargoType::Cement)
    } else if text_eq(w, &chars_of("RESOURCE_TRANSPORT_COVERED")) {
        Some(StorageCargoType::Covered)
    } else if text_eq(w, &chars_of("RESOURCE_TRANSPORT_GRAVEL")) {
        Some(StorageCargoType::Gravel)
    } else if text_eq(w, &chars_of("RESOURCE_TRANSPORT_OIL")) {
        Some(StorageCargoType::Oil)
    } else if text_eq(w, &chars_of("RESOURCE_TRANSPORT_OPEN")) {
        Some(StorageCargoType::Open)
    } else if text_eq(w, &chars_of("RESOURCE_TRANSPORT_COOLER")) {
        Some(StorageCargoType::Cooler)
    } else if text_eq(w, &chars_of("RESOURCE_TRANSPORT_CONCRETE")) {
        Some(StorageCargoType::Concrete)
    } else if text_eq(w, &chars_of("RESOURCE_TRANSPORT_LIVESTOCK")) {
        Some(StorageCargoType::Livestock)
    } else if text_eq(w, &chars_of("RESOURCE_TRANSPORT_GENERAL")) {
        Some(StorageCargoType::General)
    } else {
        None
    }
}

impl StorageCargoType {
    /// The directive text of this value.
    pub fn name(&self) -> (r: &'static str)
        ensures
            r@ == storage_cargo_name(*self),
    {
        match self {
            StorageCargoType::Passanger => "RESOURCE_TRANSPORT_PASSANGER",
            StorageCargoType::Cement => "RESOURCE_TRANSPORT_CEMENT",
            StorageCargoType::Covered => "RESOURCE_TRANSPORT_COVERED",
            StorageCargoType::Gravel => "RESOURCE_TRANSPORT_GRAVEL",
            StorageCargoType::Oil => "RESOURCE_TRANSPORT_OIL",
            StorageCargoType::Open => "RESOURCE_TRANSPORT_OPEN",
            StorageCargoType::Cooler => "RESOURCE_TRANSPORT_COOLER",
            StorageCargoType::Concrete => "RESOURCE_TRANSPORT_CONCRETE",
            StorageCargoType::Livestock => "RESOURCE_TRANSPORT_LIVESTOCK",
            StorageCargoType::General => "RESOURCE_TRANSPORT_GENERAL",
        }
    }
}

/// ParticleType values as they appear in directive arguments.
#[derive(Clone, Copy, PartialEq, Eq, Structural, Debug)]
pub enum ParticleType {
    ResidentialHeating,
    BigBlack,
    MediumBlack,
    SmallBlack,
    BigGray,
    MediumGray,
    SmallGray,
    BigWhite,
    MediumWhite,
    SmallWhite,
}

pub open spec fn particle_type_of(w: Seq<char>) -> Option<ParticleType> {
    if w == "residential_heating"@ {
        Option::Some(ParticleType::ResidentialHeating)
    } else if w == "factory_big_black"@ {
        Option::Some(ParticleType::BigBlack)
    } else if w == "factory_medium_black"@ {
        Option::Some(ParticleType::MediumBlack)
    } else if w == "factory_small_black"@ {
        Option::Some(ParticleType::SmallBlack)
    } else if w == "factory_big_gray"@ {
        Option::Some(ParticleType::BigGray)
    } else if w == "factory_medium_gray"@ {
        Option::Some(ParticleType::MediumGray)
    } else if w == "factory_small_gray"@ {
        Option::Some(ParticleType::SmallGray)
    } else if w == "factory_big_white"@ {
        Option::Some(ParticleType::BigWhite)
    } else if w == "factory_medium_white"@ {
        Option::Some(ParticleType::MediumWhite)
    } else if w == "factory_small_white"@ {
        Option::Some(ParticleType::SmallWhite)
    } else {
        Option::None
    }
}

pub open spec fn particle_type_name(x: ParticleType) -> Seq<char> {
    match x {
        ParticleType::ResidentialHeating => "residential_heating"@,
        ParticleType::BigBlack => "factory_big_black"@,
        ParticleType::MediumBlack => "factory_medium_black"@,
        ParticleType::SmallBlack => "factory_small_black"@,
        ParticleType::BigGray => "factory_big_gray"@,
        ParticleType::MediumGray => "factory_medium_gray"@,
        ParticleType::SmallGray => "factory_small_gray"@,
        ParticleType::BigWhite => "factory_big_white"@,
        ParticleType::MediumWhite => "factory_medium_white"@,
        ParticleType::SmallWhite => "factory_small_white"@,
    }
}

pub fn parse_particle_type(w: &Vec<char>) -> (r: Option<ParticleType>)
    ensures
        r == particle_type_of(w@),
{
    if text_eq(w, &chars_of("residential_heating")) {
        Some(ParticleType::ResidentialHeating)
    } else if text_eq(w, &chars_of("factory_big_black")) {
        Some(ParticleType::BigBlack)
    } else if text_eq(w, &chars_of("factory_medium_black")) {
        Some(ParticleType::MediumBlack)
    } else if text_eq(w, &chars_of("factory_small_black")) {
        Some(ParticleType::SmallBlack)
    } else if text_eq(w, &chars_of("factory_big_gray")) {
        Some(ParticleType::BigGray)
    } else if text_eq(w, &chars_of("factory_medium_gray")) {
        Some(ParticleType::MediumGray)
    } else if text_eq(w, &chars_of("factory_small_gray")) {
        Some(ParticleType::SmallGray)
    } else if text_eq(w, &chars_of("factory_big_white")) {
        Some(ParticleType::BigWhite)
    } else if text_eq(w, &chars_of("factory_medium_white")) {
        Some(ParticleType::MediumWhite)
    } else if text_eq(w, &chars_of("factory_small_white")) {
        Some(ParticleType::SmallWhite)
    } else {
        None
    }
}

impl ParticleType {
    /// The directive text of this value.
    pub fn name(&self) -> (r: &'static str)
        ensures
            r@ == particle_type_name(*self),
    {
        match self {
            ParticleType::ResidentialHeating => "residential_heating",
            ParticleType::BigBlack => "factory_big_black",
            ParticleType::MediumBlack => "factory_medium_black",
            ParticleType::SmallBlack => "factory_small_black",
            ParticleType::BigGray => "factory_big_gray",
            ParticleType::MediumGray => "factory_medium_gray",
            ParticleType::SmallGray => "factory_small_gray",
            ParticleType::BigWhite => "factory_big_white",
            ParticleType::MediumWhite => "factory_medium_white",
            ParticleType::SmallWhite => "factory_small_white",
        }
    }
}

/// ConstructionPhase values as they appear in directive arguments.
#[derive(Clone, Copy, PartialEq, Eq, Structural, Debug)]
pub enum ConstructionPhase {
    Groundworks,
    BoardsLaying,
    BricksLaying,
    SkeletonCasting,
    SteelLaying,
    PanelsLaying,
    RooftopBuilding,
    WireLaying,
    Tunneling,
}

pub open spec fn construction_phase_of(w: Seq<char>) -> Option<ConstructionPhase> {
    if w == "SOVIET_CONSTRUCTION_GROUNDWORKS"@ {
        Option::Some(ConstructionPhase::Groundworks)
    } else if w == "SOVIET_CONSTRUCTION_BOARDS_LAYING"@ {
        Option::Some(ConstructionPhase::BoardsLaying)
    } else if w == "SOVIET_CONSTRUCTION_BRICKS_LAYING"@ {
        Option::Some(ConstructionPhase::BricksLaying)
    } else if w == "SOVIET_CONSTRUCTION_SKELETON_CASTING"@ {
        Option::Some(ConstructionPhase::SkeletonCasting)
    } else if w == "SOVIET_CONSTRUCTION_STEEL_LAYING"@ {
        Option::Some(ConstructionPhase::SteelLaying)
    } else if w == "SOVIET_CONSTRUCTION_PANELS_LAYING"@ {
        Option::Some(ConstructionPhase::PanelsLaying)
    } else if w == "SOVIET_CONSTRUCTION_ROOFTOP_BUILDING"@ {
        Option::Some(ConstructionPhase::RooftopBuilding)
    } else if w == "SOVIET_CONSTRUCTION_WIRE_LAYING"@ {
        Option::Some(ConstructionPhase::WireLaying)
    } else if w == "SOVIET_CONSTRUCTION_TUNNELING"@ {
        Option::Some(ConstructionPhase::Tunneling)
    } else {
        Option::None
    }
}

pub open spec fn construction_phase_name(x: ConstructionPhase) -> Seq<char> {
    match x {
        ConstructionPhase::Groundworks => "SOVIET_CONSTRUCTION_GROUNDWORKS"@,
        ConstructionPhase::BoardsLaying => "SOVIET_CONSTRUCTION_BOARDS_LAYING"@,
        ConstructionPhase::BricksLaying => "SOVIET_CONSTRUCTION_BRICKS_LAYING"@,
        ConstructionPhase::SkeletonCasting => "SOVIET_CONSTRUCTION_SKELETON_CASTING"@,
        ConstructionPhase::SteelLaying => "SOVIET_CONSTRUCTION_STEEL_LAYING"@,
        ConstructionPhase::PanelsLaying => "SOVIET_CONSTRUCTION_PANELS_LAYING"@,
        ConstructionPhase::RooftopBuilding => "SOVIET_CONSTRUCTION_ROOFTOP_BUILDING"@,
        ConstructionPhase::WireLaying => "SOVIET_CONSTRUCTION_WIRE_LAYING"@,
        ConstructionPhase::Tunneling => "SOVIET_CONSTRUCTION_TUNNELING"@,
    }
}

pub fn parse_construction_phase(w: &Vec<char>) -> (r: Option<ConstructionPhase>)
    ensures
        r == construction_phase_of(w@),
{
    if text_eq(w, &chars_of("SOVIET_CONSTRUCTION_GROUNDWORKS")) {
        Some(ConstructionPhase::Groundworks)
    } else if text_eq(w, &chars_of("SOVIET_CONSTRUCTION_BOARDS_LAYING")) {
        Some(ConstructionPhase::BoardsLaying)
    } else if text_eq(w, &chars_of("SOVIET_CONSTRUCTION_BRICKS_LAYING")) {
        Some(ConstructionPhase::BricksLaying)
    } else if text_eq(w, &chars_of("SOVIET_CONSTRUCTION_SKELETON_CASTING")) {
        Some(ConstructionPhase::SkeletonCasting)
    } else if text_eq(w, &chars_of("SOVIET_CONSTRUCTION_STEEL_LAYING")) {
        Some(ConstructionPhase::SteelLaying)
    } else if text_eq(w, &chars_of("SOVIET_CONSTRUCTION_PANELS_LAYING")) {
        Some(ConstructionPhase::PanelsLaying)
    } else if text_eq(w, &chars_of("SOVIET_CONSTRUCTION_ROOFTOP_BUILDING")) {
        Some(ConstructionPhase::RooftopBuilding)
    } else if text_eq(w, &chars_of("SOVIET_CONSTRUCTION_WIRE_LAYING")) {
        Some(ConstructionPhase::WireLaying)
    } else if text_eq(w, &chars_of("SOVIET_CONSTRUCTION_TUNNELING")) {
        Some(ConstructionPhase::Tunneling)
    } else {
        None
    }
}

impl ConstructionPhase {
    /// The directive text of this value.
    pub fn name(&self) -> (r: &'static str)
        ensures
            r@ == construction_phase_name(*self),
    {
        match self {
            ConstructionPhase::Groundworks => "SOVIET_CONSTRUCTION_GROUNDWORKS",
            ConstructionPhase::BoardsLaying => "SOVIET_CONSTRUCTION_BOARDS_LAYING",
            ConstructionPhase::BricksLaying => "SOVIET_CONSTRUCTION_BRICKS_LAYING",
            ConstructionPhase::SkeletonCasting => "SOVIET_CONSTRUCTION_SKELETON_CASTING",
            ConstructionPhase::SteelLaying => "SOVIET_CONSTRUCTION_STEEL_LAYING",
            ConstructionPhase::PanelsLaying => "SOVIET_CONSTRUCTION_PANELS_LAYING",
            ConstructionPhase::RooftopBuilding => "SOVIET_CONSTRUCTION_ROOFTOP_BUILDING",
            ConstructionPhase::WireLaying => "SOVIET_CONSTRUCTION_WIRE_LAYING",
            ConstructionPhase::Tunneling => "SOVIET_CONSTRUCTION_TUNNELING",
        }
    }
}

/// ConstructionAutoCost values as they appear in directive arguments.
#[derive(Clone, Copy, PartialEq, Eq, Structural, Debug)]
pub enum ConstructionAutoCost {
    Ground,
    GroundAsphalt,
    WallConcrete,
    WallPanels,
    WallBrick,
    WallSteel,
    WallWood,
    TechSteel,
    ElectroSteel,
    RoofWoodBrick,
    RoofSteel,
    RoofWoodSteel,
}

pub open spec fn construction_auto_cost_of(w: Seq<char>) -> Option<ConstructionAutoCost> {
    if w == "ground"@ {
        Option::Some(ConstructionAutoCost::Ground)
    } else if w == "ground_asphalt"@ {
        Option::Some(ConstructionAutoCost::GroundAsphalt)
    } else if w == "wall_concrete"@ {
        Option::Some(ConstructionAutoCost::WallConcrete)
    } else if w == "wall_panels"@ {
        Option::Some(ConstructionAutoCost::WallPanels)
    } else if w == "wall_brick"@ {
        Option::Some(ConstructionAutoCost::WallBrick)
    } else if w == "wall_steel"@ {
        Option::Some(ConstructionAutoCost::WallSteel)
    } else if w == "wall_wood"@ {
        Option::Some(ConstructionAutoCost::WallWood)
    } else if w == "tech_steel"@ {
        Option::Some(ConstructionAutoCost::TechSteel)
    } else if w == "electro_steel"@ {
        Option::Some(ConstructionAutoCost::ElectroSteel)
    } else if w == "roof_woodbrick"@ {
        Option::Some(ConstructionAutoCost::RoofWoodBrick)
    } else if w == "roof_steel"@ {
        Option::Some(ConstructionAutoCost::RoofSteel)
    } else if w == "roof_woodsteel"@ {
        Option::Some(ConstructionAutoCost::RoofWoodSteel)
    } else {
        Option::None
    }
}

pub open spec fn construction_auto_cost_name(x: ConstructionAutoCost) -> Seq<char> {
    match x {
        ConstructionAutoCost::Ground => "ground"@,
        ConstructionAutoCost::GroundAsphalt => "ground_asphalt"@,
        ConstructionAutoCost::WallConcrete => "wall_concrete"@,
        ConstructionAutoCost::WallPanels => "wall_panels"@,
        ConstructionAutoCost::WallBrick => "wall_brick"@,
        ConstructionAutoCost::WallSteel => "wall_steel"@,
        ConstructionAutoCost::WallWood => "wall_wood"@,
        ConstructionAutoCost::TechSteel => "tech_steel"@,
        ConstructionAutoCost::ElectroSteel => "electro_steel"@,
        ConstructionAutoCost::RoofWoodBrick => "roof_woodbrick"@,
        ConstructionAutoCost::RoofSteel => "roof_steel"@,
        ConstructionAutoCost::RoofWoodSteel => "roof_woodsteel"@,
    }
}

pub fn parse_construction_auto_cost(w: &Vec<char>) -> (r: Option<ConstructionAutoCost>)
    ensures
        r == construction_auto_cost_of(w@),
{
    if text_eq(w, &chars_of("ground")) {
        Some(ConstructionAutoCost::Ground)
    } else if text_eq(w, &chars_of("ground_asphalt")) {
        Some(ConstructionAutoCost::GroundAsphalt)
    } else if text_eq(w, &chars_of("wall_concrete")) {
        Some(ConstructionAutoCost::WallConcrete)
    } else if text_eq(w, &chars_of("wall_panels")) {
        Some(ConstructionAutoCost::WallPanels)
    } else if text_eq(w, &chars_of("wall_brick")) {
        Some(ConstructionAutoCost::WallBrick)
    } else if text_eq(w, &chars_of("wall_steel")) {
        Some(ConstructionAutoCost::WallSteel)
    } else if text_eq(w, &chars_of("wall_wood")) {
        Some(ConstructionAutoCost::WallWood)
    } else if text_eq(w, &chars_of("tech_steel")) {
        Some(ConstructionAutoCost::TechSteel)
    } else if text_eq(w, &chars_of("electro_steel")) {
        Some(ConstructionAutoCost::ElectroSteel)
    } else if text_eq(w, &chars_of("roof_woodbrick")) {
        Some(ConstructionAutoCost::RoofWoodBrick)
    } else if text_eq(w, &chars_of("roof_steel")) {
        Some(ConstructionAutoCost::RoofSteel)
    } else if text_eq(w, &chars_of("roof_woodsteel")) {
        Some(ConstructionAutoCost::RoofWoodSteel)
    } else {
        None
    }
}

impl ConstructionAutoCost {
    /// The directive text of this value.
    pub fn name(&self) -> (r: &'static str)
        ensures
            r@ == construction_auto_cost_name(*self),
    {
        match self {
            ConstructionAutoCost::Ground => "ground",
            ConstructionAutoCost::GroundAsphalt => "ground_asphalt",
            ConstructionAutoCost::WallConcrete => "wall_concrete",
            ConstructionAutoCost::WallPanels => "wall_panels",
            ConstructionAutoCost::WallBrick => "wall_brick",
            ConstructionAutoCost::WallSteel => "wall_steel",
            ConstructionAutoCost::WallWood => "wall_wood",
            ConstructionAutoCost::TechSteel => "tech_steel",
            ConstructionAutoCost::ElectroSteel => "electro_steel",
            ConstructionAutoCost::RoofWoodBrick => "roof_woodbrick",
            ConstructionAutoCost::RoofSteel => "roof_steel",
            ConstructionAutoCost::RoofWoodSteel => "roof_woodsteel",
        }
    }
}

/// ResourceType values as they appear in directive arguments.
#[derive(Clone, Copy, PartialEq, Eq, Structural, Debug)]
pub enum ResourceType {
    Alcohol,
    Alumina,
    Aluminium,
    Asphalt,
    Bauxite,
    Boards,
    Bricks,
    Chemicals,
    Clothes,
    Concrete,
    ElectroComponents,
    Electricity,
    Electronics,
    Food,
    Gravel,
    MechComponents,
    Meat,
    NuclearFuel,
    Oil,
    Crops,
    PrefabPanels,
    Steel,
    UF6,
    Uranium,
    Wood,
    Workers,
    Yellowcake,
}

pub open spec fn resource_type_of(w: Seq<char>) -> Option<ResourceType> {
    if w == "alcohol"@ {
        Option::Some(ResourceType::Alcohol)
    } else if w == "alumina"@ {
        Option::Some(ResourceType::Alumina)
    } else if w == "aluminium"@ {
        Option::Some(ResourceType::Aluminium)
    } else if w == "asphalt"@ {
        Option::Some(ResourceType::Asphalt)
    } else if w == "bauxite"@ {
        Option::Some(ResourceType::Bauxite)
    } else if w == "boards"@ {
        Option::Some(ResourceType::Boards)
    } else if w == "bricks"@ {
        Option::Some(ResourceType::Bricks)
    } else if w == "chemicals"@ {
        Option::Some(ResourceType::Chemicals)
    } else if w == "clothes"@ {
        Option::Some(ResourceType::Clothes)
    } else if w == "concrete"@ {
        Option::Some(ResourceType::Concrete)
    } else if w == "ecomponents"@ {
        Option::Some(ResourceType::ElectroComponents)
    } else if w == "eletric"@ {
        Option::Some(ResourceType::Electricity)
    } else if w == "eletronics"@ {
        Option::Some(ResourceType::Electronics)
    } else if w == "food"@ {
        Option::Some(ResourceType::Food)
    } else if w == "gravel"@ {
        Option::Some(ResourceType::Gravel)
    } else if w == "mcomponents"@ {
        Option::Some(ResourceType::MechComponents)
    } else if w == "meat"@ {
        Option::Some(ResourceType::Meat)
    } else if w == "nuclearfuel"@ {
        Option::Some(ResourceType::NuclearFuel)
    } else if w == "oil"@ {
        Option::Some(ResourceType::Oil)
    } else if w == "plants"@ {
        Option::Some(ResourceType::Crops)
    } else if w == "prefabpanels"@ {
        Option::Some(ResourceType::PrefabPanels)
    } else if w == "steel"@ {
        Option::Some(ResourceType::Steel)
    } else if w == "uf6"@ {
        Option::Some(ResourceType::UF6)
    } else if w == "uranium"@ {
        Option::Some(ResourceType::Uranium)
    } else if w == "wood"@ {
        Option::Some(ResourceType::Wood)
    } else if w == "workers"@ {
        Option::Some(ResourceType::Workers)
    } else if w == "yellowcake"@ {
        Option::Some(ResourceType::Yellowcake)
    } else {
        Option::None
    }
}

pub open spec fn resource_type_name(x: ResourceType) -> Seq<char> {
    match x {
        ResourceType::Alcohol => "alcohol"@,
        ResourceType::Alumina => "alumina"@,
        ResourceType::Aluminium => "aluminium"@,
        ResourceType::Asphalt => "asphalt"@,
        ResourceType::Bauxite => "bauxite"@,
        ResourceType::Boards => "boards"@,
        ResourceType::Bricks => "bricks"@,
        ResourceType::Chemicals => "chemicals"@,
        ResourceType::Clothes => "clothes"@,
        ResourceType::Concrete => "concrete"@,
        ResourceType::ElectroComponents => "ecomponents"@,
        ResourceType::Electricity => "eletric"@,
        ResourceType::Electronics => "eletronics"@,
        ResourceType::Food => "food"@,
        ResourceType::Gravel => "gravel"@,
        ResourceType::MechComponents => "mcomponents"@,
        ResourceType::Meat => "meat"@,
        ResourceType::NuclearFuel => "nuclearfuel"@,
        ResourceType::Oil => "oil"@,
        ResourceType::Crops => "plants"@,
        ResourceType::PrefabPanels => "prefabpanels"@,
        ResourceType::Steel => "steel"@,
        ResourceType::UF6 => "uf6"@,
        ResourceType::Uranium => "uranium"@,
        ResourceType::Wood => "wood"@,
        ResourceType::Workers => "workers"@,
        ResourceType::Yellowcake => "yellowcake"@,
    }
}

pub fn parse_resource_type(w: &Vec<char>) -> (r: Option<ResourceType>)
    ensures
        r == resource_type_of(w@),
{
    if text_eq(w, &chars_of("alcohol")) {
        Some(ResourceType::Alcohol)
    } else if text_eq(w, &chars_of("alumina")) {
        Some(ResourceType::Alumina)
    } else if text_eq(w, &chars_of("aluminium")) {
        Some(ResourceType::Aluminium)
    } else if text_eq(w, &chars_of("asphalt")) {
        Some(ResourceType::Asphalt)
    } else if text_eq(w, &chars_of("bauxite")) {
        Some(ResourceType::Bauxite)
    } else if text_eq(w, &chars_of("boards")) {
        Some(ResourceType::Boards)
    } else if text_eq(w, &chars_of("bricks")) {
        Some(ResourceType::Bricks)
    } else if text_eq(w, &chars_of("chemicals")) {
        Some(ResourceType::Chemicals)
    } else if text_eq(w, &chars_of("clothes")) {
        Some(ResourceType::Clothes)
    } else if text_eq(w, &chars_of("concrete")) {
        Some(ResourceType::Concrete)
    } else if text_eq(w, &chars_of("ecomponents")) {
        Some(ResourceType::ElectroComponents)
    } else if text_eq(w, &chars_of("eletric")) {
        Some(ResourceType::Electricity)
    } else if text_eq(w, &chars_of("eletronics")) {
        Some(ResourceType::Electronics)
    } else if text_eq(w, &chars_of("food")) {
        Some(ResourceType::Food)
    } else if text_eq(w, &chars_of("gravel")) {
        Some(ResourceType::Gravel)
    } else if text_eq(w, &chars_of("mcomponents")) {
        Some(ResourceType::MechComponents)
    } else if text_eq(w, &chars_of("meat")) {
        Some(ResourceType::Meat)
    } else if text_eq(w, &chars_of("nuclearfuel")) {
        Some(ResourceType::NuclearFuel)
    } else if text_eq(w, &chars_of("oil")) {
        Some(ResourceType::Oil)
    } else if text_eq(w, &chars_of("plants")) {
        Some(ResourceType::Crops)
    } else if text_eq(w, &chars_of("prefabpanels")) {
        Some(ResourceType::PrefabPanels)
    } else if text_eq(w, &chars_of("steel")) {
        Some(ResourceType::Steel)
    } else if text_eq(w, &chars_of("uf6")) {
        Some(ResourceType::UF6)
    } else if text_eq(w, &chars_of("uranium")) {
        Some(ResourceType::Uranium)
    } else if text_eq(w, &chars_of("wood")) {
        Some(ResourceType::Wood)
    } else if text_eq(w, &chars_of("workers")) {
        Some(ResourceType::Workers)
    } else if text_eq(w, &chars_of("yellowcake")) {
        Some(ResourceType::Yellowcake)
    } else {
        None
    }
}

impl ResourceType {
    /// The directive text of this value.
    pub fn name(&self) -> (r: &'static str)
        ensures
            r@ == resource_type_name(*self),
    {
        match self {
            ResourceType::Alcohol => "alcohol",
            ResourceType::Alumina => "alumina",
            ResourceType::Aluminium => "aluminium",
            ResourceType::Asphalt => "asphalt",
            ResourceType::Bauxite => "bauxite",
            ResourceType::Boards => "boards",
            ResourceType::Bricks => "bricks",
            ResourceType::Chemicals => "chemicals",
            ResourceType::Clothes => "clothes",
            ResourceType::Concrete => "concrete",
            ResourceType::ElectroComponents => "ecomponents",
            ResourceType::Electricity => "eletric",
            ResourceType::Electronics => "eletronics",
            ResourceType::Food => "food",
            ResourceType::Gravel => "gravel",
            ResourceType::MechComponents => "mcomponents",
            ResourceType::Meat => "meat",
            ResourceType::NuclearFuel => "nuclearfuel",
            ResourceType::Oil => "oil",
            ResourceType::Crops => "plants",
            ResourceType::PrefabPanels => "prefabpanels",
            ResourceType::Steel => "steel",
            ResourceType::UF6 => "uf6",
            ResourceType::Uranium => "uranium",
            ResourceType::Wood => "wood",
            ResourceType::Workers => "workers",
            ResourceType::Yellowcake => "yellowcake",
        }
    }
}

pub open spec fn building_table_spec() -> Seq<DirectiveS> {
    seq![
        DirectiveS { prefix: false, kw: "NAME_STR"@, slots: seq![Slot::Quoted] },
        DirectiveS { prefix: false, kw: "NAME"@, slots: seq![Slot::UInt] },
        DirectiveS { prefix: true, kw: "TYPE_"@, slots: Seq::empty() },
        DirectiveS { prefix: true, kw: "SUBTYPE_"@, slots: Seq::empty() },
        DirectiveS { prefix: false, kw: "CIVIL_BUILDING"@, slots: Seq::empty() },
        DirectiveS { prefix: false, kw: "QUALITY_OF_LIVING"@, slots: seq![Slot::Fixed] },
        DirectiveS { prefix: false, kw: "WORKERS_NEEDED"@, slots: seq![Slot::UInt] },
        DirectiveS { prefix: false, kw: "PROFESORS_NEEDED"@, slots: seq![Slot::UInt] },
        DirectiveS { prefix: false, kw: "CITIZEN_ABLE_SERVE"@, slots: seq![Slot::UInt] },
        DirectiveS { prefix: false, kw: "STORAGE"@, slots: seq![Slot::Word, Slot::Fixed] },
        DirectiveS { prefix: false, kw: "CONNECTION_PEDESTRIAN"@, slots: seq![Slot::Fixed, Slot::Fixed, Slot::Fixed, Slot::Fixed, Slot::Fixed, Slot::Fixed] },
        DirectiveS { prefix: false, kw: "CONNECTION_ROAD"@, slots: seq![Slot::Fixed, Slot::Fixed, Slot::Fixed, Slot::Fixed, Slot::Fixed, Slot::Fixed] },
        DirectiveS { prefix: false, kw: "CONNECTION_ROAD_DEAD"@, slots: seq![Slot::Fixed, Slot::Fixed, Slot::Fixed] },
        DirectiveS { prefix: false, kw: "CONNECTIONS_ROAD_DEAD_SQUARE"@, slots: seq![Slot::Fixed, Slot::Fixed, Slot::Fixed, Slot::Fixed] },
        DirectiveS { prefix: false, kw: "PARTICLE"@, slots: seq![Slot::Word, Slot::Fixed, Slot::Fixed, Slot::Fixed, Slot::Fixed, Slot::Fixed] },
        DirectiveS { prefix: false, kw: "TEXT_CAPTION"@, slots: seq![Slot::Fixed, Slot::Fixed, Slot::Fixed, Slot::Fixed, Slot::Fixed, Slot::Fixed] },
        DirectiveS { prefix: false, kw: "COST_WORK"@, slots: seq![Slot::Word, Slot::Fixed] },
        DirectiveS { prefix: false, kw: "COST_WORK_BUILDING_NODE"@, slots: seq![Slot::Word] },
        DirectiveS { prefix: false, kw: "COST_WORK_BUILDING_KEYWORD"@, slots: seq![Slot::Word] },
        DirectiveS { prefix: false, kw: "COST_RESOURCE"@, slots: seq![Slot::Word, Slot::Fixed] },
        DirectiveS { prefix: false, kw: "COST_RESOURCE_AUTO"@, slots: seq![Slot::Word, Slot::Fixed] },
        DirectiveS { prefix: false, kw: "COST_WORK_VEHICLE_STATION"@, slots: seq![Slot::Fixed, Slot::Fixed, Slot::Fixed, Slot::Fixed, Slot::Fixed, Slot::Fixed] },
        DirectiveS { prefix: false, kw: "COST_WORK_VEHICLE_STATION_ACCORDING_NODE"@, slots: seq![Slot::Word] },
        DirectiveS { prefix: false, kw: "STORAGE_LIVING_AUTO"@, slots: seq![Slot::Word] },
    ]
}

#[verifier::rlimit(100)]
pub fn building_table() -> (t: Vec<Directive>)
    ensures
        table_view(t@) == building_table_spec(),
{
    let mut t: Vec<Directive> = Vec::new();
    let mut s0: Vec<Slot> = Vec::new();
    s0.push(Slot::Quoted);
    assert(s0@ =~= seq![Slot::Quoted]);
    t.push(Directive { prefix: false, kw: chars_of("NAME_STR"), slots: s0 });
    let mut s1: Vec<Slot> = Vec::new();
    s1.push(Slot::UInt);
    assert(s1@ =~= seq![Slot::UInt]);
    t.push(Directive { prefix: false, kw: chars_of("NAME"), slots: s1 });
    t.push(Directive { prefix: true, kw: chars_of("TYPE_"), slots: Vec::new() });
    t.push(Directive { prefix: true, kw: chars_of("SUBTYPE_"), slots: Vec::new() });
    t.push(Directive { prefix: false, kw: chars_of("CIVIL_BUILDING"), slots: Vec::new() });
    let mut s5: Vec<Slot> = Vec::new();
    s5.push(Slot::Fixed);
    assert(s5@ =~= seq![Slot::Fixed]);
    t.push(Directive { prefix: false, kw: chars_of("QUALITY_OF_LIVING"), slots: s5 });
    let mut s6: Vec<Slot> = Vec::new();
    s6.push(Slot::UInt);
    assert(s6@ =~= seq![Slot::UInt]);
    t.push(Directive { prefix: false, kw: chars_of("WORKERS_NEEDED"), slots: s6 });
    let mut s7: Vec<Slot> = Vec::new();
    s7.push(Slot::UInt);
    assert(s7@ =~= seq![Slot::UInt]);
    t.push(Directive { prefix: false, kw: chars_of("PROFESORS_NEEDED"), slots: s7 });
    let mut s8: Vec<Slot> = Vec::new();
    s8.push(Slot::UInt);
    assert(s8@ =~= seq![Slot::UInt]);
    t.push(Directive { prefix: false, kw: chars_of("CITIZEN_ABLE_SERVE"), slots: s8 });
    let mut s9: Vec<Slot> = Vec::new();
    s9.push(Slot::Word);
    s9.push(Slot::Fixed);
    assert(s9@ =~= seq![Slot::Word, Slot::Fixed]);
    t.push(Directive { prefix: false, kw: chars_of("STORAGE"), slots: s9 });
    let mut s10: Vec<Slot> = Vec::new();
    s10.push(Slot::Fixed);
    s10.push(Slot::Fixed);
    s10.push(Slot::Fixed);
    s10.push(Slot::Fixed);
    s10.push(Slot::Fixed);
    s10.push(Slot::Fixed);
    assert(s10@ =~= seq![Slot::Fixed, Slot::Fixed, Slot::Fixed, Slot::Fixed, Slot::Fixed, Slot::Fixed]);
    t.push(Directive { prefix: false, kw: chars_of("CONNECTION_PEDESTRIAN"), slots: s10 });
    let mut s11: Vec<Slot> = Vec::new();
    s11.push(Slot::Fixed);
    s11.push(Slot::Fixed);
    s11.push(Slot::Fixed);
    s11.push(Slot::Fixed);
    s11.push(Slot::Fixed);
    s11.push(Slot::Fixed);
    assert(s11@ =~= seq![Slot::Fixed, Slot::Fixed, Slot::Fixed, Slot::Fixed, Slot::Fixed, Slot::Fixed]);
    t.push(Directive { prefix: false, kw: chars_of("CONNECTION_ROAD"), slots: s11 });
    let mut s12: Vec<Slot> = Vec::new();
    s12.push(Slot::Fixed);
    s12.push(Slot::Fixed);
    s12.push(Slot::Fixed);
    assert(s12@ =~= seq![Slot::Fixed, Slot::Fixed, Slot::Fixed]);
    t.push(Directive { prefix: false, kw: chars_of("CONNECTION_ROAD_DEAD"), slots: s12 });
    let mut s13: Vec<Slot> = Vec::new();
    s13.push(Slot::Fixed);
    s13.push(Slot::Fixed);
    s13.push(Slot::Fixed);
    s13.push(Slot::Fixed);
    assert(s13@ =~= seq![Slot::Fixed, Slot::Fixed, Slot::Fixed, Slot::Fixed]);
    t.push(Directive { prefix: false, kw: chars_of("CONNECTIONS_ROAD_DEAD_SQUARE"), slots: s13 });
    let mut s14: Vec<Slot> = Vec::new();
    s14.push(Slot::Word);
    s14.push(Slot::Fixed);
    s14.push(Slot::Fixed);
    s14.push(Slot::Fixed);
    s14.push(Slot::Fixed);
    s14.push(Slot::Fixed);
    assert(s14@ =~= seq![Slot::Word, Slot::Fixed, Slot::Fixed, Slot::Fixed, Slot::Fixed, Slot::Fixed]);
    t.push(Directive { prefix: false, kw: chars_of("PARTICLE"), slots: s14 });
    let mut s15: Vec<Slot> = Vec::new();
    s15.push(Slot::Fixed);
    s15.push(Slot::Fixed);
    s15.push(Slot::Fixed);
    s15.push(Slot::Fixed);
    s15.push(Slot::Fixed);
    s15.push(Slot::Fixed);
    assert(s15@ =~= seq![Slot::Fixed, Slot::Fixed, Slot::Fixed, Slot::Fixed, Slot::Fixed, Slot::Fixed]);
    t.push(Directive { prefix: false, kw: chars_of("TEXT_CAPTION"), slots: s15 });
    let mut s16: Vec<Slot> = Vec::new();
    s16.push(Slot::Word);
    s16.push(Slot::Fixed);
    assert(s16@ =~= seq![Slot::Word, Slot::Fixed]);
    t.push(Directive { prefix: false, kw: chars_of("COST_WORK"), slots: s16 });
    let mut s17: Vec<Slot> = Vec::new();
    s17.push(Slot::Word);
    assert(s17@ =~= seq![Slot::Word]);
    t.push(Directive { prefix: false, kw: chars_of("COST_WORK_BUILDING_NODE"), slots: s17 });
    let mut s18: Vec<Slot> = Vec::new();
    s18.push(Slot::Word);
    assert(s18@ =~= seq![Slot::Word]);
    t.push(Directive { prefix: false, kw: chars_of("COST_WORK_BUILDING_KEYWORD"), slots: s18 });
    let mut s19: Vec<Slot> = Vec::new();
    s19.push(Slot::Word);
    s19.push(Slot::Fixed);
    assert(s19@ =~= seq![Slot::Word, Slot::Fixed]);
    t.push(Directive { prefix: false, kw: chars_of("COST_RESOURCE"), slots: s19 });
    let mut s20: Vec<Slot> = Vec::new();
    s20.push(Slot::Word);
    s20.push(Slot::Fixed);
    assert(s20@ =~= seq![Slot::Word, Slot::Fixed]);
    t.push(Directive { prefix: false, kw: chars_of("COST_RESOURCE_AUTO"), slots: s20 });
    let mut s21: Vec<Slot> = Vec::new();
    s21.push(Slot::Fixed);
    s21.push(Slot::Fixed);
    s21.push(Slot::Fixed);
    s21.push(Slot::Fixed);
    s21.push(Slot::Fixed);
    s21.push(Slot::Fixed);
    assert(s21@ =~= seq![Slot::Fixed, Slot::Fixed, Slot::Fixed, Slot::Fixed, Slot::Fixed, Slot::Fixed]);
    t.push(Directive { prefix: false, kw: chars_of("COST_WORK_VEHICLE_STATION"), slots: s21 });
    let mut s22: Vec<Slot> = Vec::new();
    s22.push(Slot::Word);
    assert(s22@ =~= seq![Slot::Word]);
    t.push(Directive { prefix: false, kw: chars_of("COST_WORK_VEHICLE_STATION_ACCORDING_NODE"), slots: s22 });
    let mut s23: Vec<Slot> = Vec::new();
    s23.push(Slot::Word);
    assert(s23@ =~= seq![Slot::Word]);
    t.push(Directive { prefix: false, kw: chars_of("STORAGE_LIVING_AUTO"), slots: s23 });
    proof {
        assert(table_view(t@) =~~= building_table_spec());
    }
    t
}
// ---------------------------------------------------------------------------
// argument access helpers

fn fixed_at(args: &Vec<Arg>, i: usize) -> (r: Option<i64>)
    requires
        i < args@.len(),
    ensures
        match r {
            Option::Some(v) => args@[i as int]@ == ArgS::Fixed(v),
            Option::None => !(args@[i as int]@ is Fixed),
        },
{
    match &args[i] {
        Arg::Fixed(v) => Some(*v),
        _ => None,
    }
}

fn uint_at(args: &Vec<Arg>, i: usize) -> (r: Option<u32>)
    requires
        i < args@.len(),
    ensures
        match r {
            Option::Some(v) => args@[i as int]@ == ArgS::UInt(v),
            Option::None => !(args@[i as int]@ is UInt),
        },
{
    match &args[i] {
        Arg::UInt(v) => Some(*v),
        _ => None,
    }
}

fn word_at(args: &Vec<Arg>, i: usize) -> (r: Option<Vec<char>>)
    requires
        i < args@.len(),
    ensures
        match r {
            Option::Some(v) => args@[i as int]@ == ArgS::Word(v@),
            Option::None => !(args@[i as int]@ is Word),
        },
{
    match &args[i] {
        Arg::Word(w) => {
            let c = range_text(w, 0, w.len());
            assert(c@ =~= w@);
            assert(args@[i as int] == Arg::Word(*w));
            Some(c)
        },
        _ => None,
    }
}

fn quoted_at(args: &Vec<Arg>, i: usize) -> (r: Option<Vec<char>>)
    requires
        i < args@.len(),
    ensures
        match r {
            Option::Some(v) => args@[i as int]@ == ArgS::Quoted(v@),
            Option::None => !(args@[i as int]@ is Quoted),
        },
{
    match &args[i] {
        Arg::Quoted(w) => {
            let c = range_text(w, 0, w.len());
            assert(c@ =~= w@);
            assert(args@[i as int] == Arg::Quoted(*w));
            Some(c)
        },
        _ => None,
    }
}

fn point_from(args: &Vec<Arg>, i: usize) -> (r: Option<Point3f>)
    requires
        i + 3 <= args@.len() <= usize::MAX,
    ensures
        match r {
            Option::Some(p) => args@[i as int]@ == ArgS::Fixed(p.x) && args@[i as int + 1]@
                == ArgS::Fixed(p.y) && args@[i as int + 2]@ == ArgS::Fixed(p.z),
            Option::None => !(args@[i as int]@ is Fixed) || !(args@[i as int + 1]@ is Fixed)
                || !(args@[i as int + 2]@ is Fixed),
        },
{
    let x = match fixed_at(args, i) {
        Option::Some(v) => v,
        Option::None => {
            return None;
        },
    };
    let y = match fixed_at(args, i + 1) {
        Option::Some(v) => v,
        Option::None => {
            return None;
        },
    };
    let z = match fixed_at(args, i + 2) {
        Option::Some(v) => v,
        Option::None => {
            return None;
        },
    };
    Some(Point3f { x, y, z })
}

// ---------------------------------------------------------------------------
// decoding

/// What a directive of kind `kind` with arguments `args` decodes to.
pub open spec fn token_matches(t: Token, kind: int, args: Seq<ArgS>) -> bool {
    if kind == 2 {
        args.len() == 1 && args[0] is Word && match t {
            Token::BuildingType(b) => building_type_of(args[0]->Word_0) == Option::Some(b),
            _ => false,
        }
    } else if kind == 3 {
        args.len() == 1 && args[0] is Word && match t {
            Token::BuildingSubtype(b) => building_subtype_of(args[0]->Word_0) == Option::Some(
                b,
            ),
            _ => false,
        }
    } else if kind == 0 {
        args.len() == 1 && args[0] is Quoted && match t {
            Token::NameStr(q) => q.text() == args[0]->Quoted_0,
            _ => false,
        }
    } else if kind == 1 {
        args.len() == 1 && args[0] is UInt && match t {
            Token::Name(n) => n == args[0]->UInt_0,
            _ => false,
        }
    } else if kind == 4 {
        args.len() == 0 && t is CivilBuilding
    } else if kind == 5 {
        args.len() == 1 && args[0] is Fixed && match t {
            Token::QualityOfLiving(f) => f == args[0]->Fixed_0,
            _ => false,
        }
    } else if kind == 6 {
        args.len() == 1 && args[0] is UInt && match t {
            Token::WorkersNeeded(n) => n == args[0]->UInt_0,
            _ => false,
        }
    } else if kind == 7 {
        args.len() == 1 && args[0] is UInt && match t {
            Token::ProfessorsNeeded(n) => n == args[0]->UInt_0,
            _ => false,
        }
    } else if kind == 8 {
        args.len() == 1 && args[0] is UInt && match t {
            Token::CitizenAbleServe(n) => n == args[0]->UInt_0,
            _ => false,
        }
    } else if kind == 9 {
        args.len() == 2 && args[0] is Word && args[1] is Fixed && match t {
            Token::Storage((c, f)) => storage_cargo_of(args[0]->Word_0) == Option::Some(c) && f
                == args[1]->Fixed_0,
            _ => false,
        }
    } else if kind == 10 {
        args.len() == 6 && all_fixed(args, 0, 6) && match t {
            Token::ConnectionPedestrian((a, b)) => a == point_at(args, 0) && b == point_at(
                args,
                3,
            ),
            _ => false,
        }
    } else if kind == 11 {
        args.len() == 6 && all_fixed(args, 0, 6) && match t {
            Token::ConnectionRoad((a, b)) => a == point_at(args, 0) && b == point_at(args, 3),
            _ => false,
        }
    } else if kind == 12 {
        args.len() == 3 && all_fixed(args, 0, 3) && match t {
            Token::ConnectionRoadDead(p) => p == point_at(args, 0),
            _ => false,
        }
    } else if kind == 13 {
        args.len() == 4 && all_fixed(args, 0, 4) && match t {
            Token::ConnectionsRoadDeadSquare(r) => r == (Rect {
                x1: args[0]->Fixed_0,
                z1: args[1]->Fixed_0,
                x2: args[2]->Fixed_0,
                z2: args[3]->Fixed_0,
            }),
            _ => false,
        }
    } else if kind == 14 {
        args.len() == 6 && args[0] is Word && all_fixed(args, 1, 6) && match t {
            Token::Particle((pt, p, a, s)) => particle_type_of(args[0]->Word_0) == Option::Some(
                pt,
            ) && p == point_at(args, 1) && a == args[4]->Fixed_0 && s == args[5]->Fixed_0,
            _ => false,
        }
    } else if kind == 15 {
        args.len() == 6 && all_fixed(args, 0, 6) && match t {
            Token::TextCaption((a, b)) => a == point_at(args, 0) && b == point_at(args, 3),
            _ => false,
        }
    } else if kind == 16 {
        args.len() == 2 && args[0] is Word && args[1] is Fixed && match t {
            Token::CostWork((ph, f)) => construction_phase_of(args[0]->Word_0) == Option::Some(
                ph,
            ) && f == args[1]->Fixed_0,
            _ => false,
        }
    } else if kind == 17 {
        args.len() == 1 && args[0] is Word && match t {
            Token::CostWorkBuildingNode(id) => id.text() == args[0]->Word_0,
            _ => false,
        }
    } else if kind == 18 {
        args.len() == 1 && args[0] is Word && match t {
            Token::CostWorkBuildingKeyword(id) => id.text() == args[0]->Word_0,
            _ => false,
        }
    } else if kind == 19 {
        args.len() == 2 && args[0] is Word && args[1] is Fixed && match t {
            Token::CostResource((rt, f)) => resource_type_of(args[0]->Word_0) == Option::Some(rt)
                && f == args[1]->Fixed_0,
            _ => false,
        }
    } else if kind == 20 {
        args.len() == 2 && args[0] is Word && args[1] is Fixed && match t {
            Token::CostResourceAuto((ca, f)) => construction_auto_cost_of(args[0]->Word_0)
                == Option::Some(ca) && f == args[1]->Fixed_0,
            _ => false,
        }
    } else if kind == 21 {
        args.len() == 6 && all_fixed(args, 0, 6) && match t {
            Token::CostWorkVehicleStation((a, b)) => a == point_at(args, 0) && b == point_at(
                args,
                3,
            ),
            _ => false,
        }
    } else if kind == 22 {
        args.len() == 1 && args[0] is Word && match t {
            Token::CostWorkVehicleStationNode(id) => id.text() == args[0]->Word_0,
            _ => false,
        }
    } else if kind == 23 {
        args.len() == 1 && args[0] is Word && match t {
            Token::StorageLivingAuto(id) => id.text() == args[0]->Word_0,
            _ => false,
        }
    } else {
        false
    }
}

pub open spec fn decodable(kind: int, args: Seq<ArgS>) -> bool {
    if kind == 4 {
        args.len() == 0
    } else if kind == 2 {
        args.len() == 1 && args[0] is Word && building_type_of(args[0]->Word_0) is Some
    } else if kind == 3 {
        args.len() == 1 && args[0] is Word && building_subtype_of(args[0]->Word_0) is Some
    } else if kind == 0 {
        args.len() == 1 && args[0] is Quoted
    } else if kind == 1 || kind == 6 || kind == 7 || kind == 8 {
        args.len() == 1 && args[0] is UInt
    } else if kind == 5 {
        args.len() == 1 && args[0] is Fixed
    } else if kind == 9 {
        args.len() == 2 && args[0] is Word && args[1] is Fixed && storage_cargo_of(
            args[0]->Word_0,
        ) is Some
    } else if kind == 10 || kind == 11 || kind == 15 || kind == 21 {
        args.len() == 6 && all_fixed(args, 0, 6)
    } else if kind == 12 {
        args.len() == 3 && all_fixed(args, 0, 3)
    } else if kind == 13 {
        args.len() == 4 && all_fixed(args, 0, 4)
    } else if kind == 14 {
        args.len() == 6 && args[0] is Word && all_fixed(args, 1, 6) && particle_type_of(
            args[0]->Word_0,
        ) is Some
    } else if kind == 16 {
        args.len() == 2 && args[0] is Word && args[1] is Fixed && construction_phase_of(
            args[0]->Word_0,
        ) is Some
    } else if kind == 17 || kind == 18 || kind == 22 || kind == 23 {
        args.len() == 1 && args[0] is Word
    } else if kind == 19 {
        args.len() == 2 && args[0] is Word && args[1] is Fixed && resource_type_of(
            args[0]->Word_0,
        ) is Some
    } else if kind == 20 {
        args.len() == 2 && args[0] is Word && args[1] is Fixed && construction_auto_cost_of(
            args[0]->Word_0,
        ) is Some
    } else {
        false
    }
}

pub open spec fn all_fixed(args: Seq<ArgS>, i: int, j: int) -> bool {
    forall|k: int| i <= k < j ==> (#[trigger] args[k]) is Fixed
}

pub open spec fn point_at(args: Seq<ArgS>, i: int) -> Point3f {
    Point3f { x: args[i]->Fixed_0, y: args[i + 1]->Fixed_0, z: args[i + 2]->Fixed_0 }
}

#[verifier::rlimit(100)]
fn decode(g: &GTok) -> (r: Option<Token>)
    ensures
        match r {
            Option::Some(t) => token_matches(t, g@.kind, g@.args) && decodable(g@.kind, g@.args),
            Option::None => !decodable(g@.kind, g@.args),
        },
{
    proof {
        assert forall|i: int| 0 <= i < g.args@.len() implies #[trigger] g@.args[i]
            == g.args@[i]@ by {}
        assert(g@.args.len() == g.args@.len());
    }
    let k = g.kind;
    let na = g.args.len();
    if k == 2 {
        if na != 1 {
            return None;
        }
        match word_at(&g.args, 0) {
            Option::Some(w) => match parse_building_type(&w) {
                Option::Some(b) => Some(Token::BuildingType(b)),
                Option::None => None,
            },
            Option::None => None,
        }
    } else if k == 3 {
        if na != 1 {
            return None;
        }
        match word_at(&g.args, 0) {
            Option::Some(w) => match parse_building_subtype(&w) {
                Option::Some(b) => Some(Token::BuildingSubtype(b)),
                Option::None => None,
            },
            Option::None => None,
        }
    } else if k == 0 {
        if na != 1 {
            return None;
        }
        match quoted_at(&g.args, 0) {
            Option::Some(v) => Some(Token::NameStr(QuotedStringParam(StrValue::Owned(v)))),
            Option::None => None,
        }
    } else if k == 1 {
        if na != 1 {
            return None;
        }
        match uint_at(&g.args, 0) {
            Option::Some(v) => Some(Token::Name(v)),
            Option::None => None,
        }
    } else if k == 4 {
        if na != 0 {
            return None;
        }
        Some(Token::CivilBuilding)
    } else if k == 5 {
        if na != 1 {
            return None;
        }
        match fixed_at(&g.args, 0) {
            Option::Some(v) => Some(Token::QualityOfLiving(v)),
            Option::None => None,
        }
    } else if k == 6 {
        if na != 1 {
            return None;
        }
        match uint_at(&g.args, 0) {
            Option::Some(v) => Some(Token::WorkersNeeded(v)),
            Option::None => None,
        }
    } else if k == 7 {
        if na != 1 {
            return None;
        }
        match uint_at(&g.args, 0) {
            Option::Some(v) => Some(Token::ProfessorsNeeded(v)),
            Option::None => None,
        }
    } else if k == 8 {
        if na != 1 {
            return None;
        }
        match uint_at(&g.args, 0) {
            Option::Some(v) => Some(Token::CitizenAbleServe(v)),
            Option::None => None,
        }
    } else if k == 9 {
        if na != 2 {
            return None;
        }
        let w = match word_at(&g.args, 0) {
            Option::Some(v) => v,
            Option::None => {
                return None;
            },
        };
        let f = match fixed_at(&g.args, 1) {
            Option::Some(v) => v,
            Option::None => {
                return None;
            },
        };
        match parse_storage_cargo(&w) {
            Option::Some(c) => Some(Token::Storage((c, f))),
            Option::None => None,
        }
    } else if k == 10 || k == 11 || k == 15 || k == 21 {
        if na != 6 {
            return None;
        }
        let a = match point_from(&g.args, 0) {
            Option::Some(v) => v,
            Option::None => {
                proof {
                    assert(g@.args[0] == g.args@[0]@);
                    assert(g@.args[1] == g.args@[1]@);
                    assert(g@.args[2] == g.args@[2]@);
                    assert(!all_fixed(g@.args, 0, 6));
                }
                return None;
            },
        };
        let b = match point_from(&g.args, 3) {
            Option::Some(v) => v,
            Option::None => {
                proof {
                    assert(g@.args[3] == g.args@[3]@);
                    assert(g@.args[4] == g.args@[4]@);
                    assert(g@.args[5] == g.args@[5]@);
                    assert(!all_fixed(g@.args, 0, 6));
                }
                return None;
            },
        };
        proof {
            assert(all_fixed(g@.args, 0, 6));
            assert(a == point_at(g@.args, 0));
            assert(b == point_at(g@.args, 3));
        }
        if k == 10 {
            Some(Token::ConnectionPedestrian((a, b)))
        } else if k == 11 {
            Some(Token::ConnectionRoad((a, b)))
        } else if k == 15 {
            Some(Token::TextCaption((a, b)))
        } else {
            Some(Token::CostWorkVehicleStation((a, b)))
        }
    } else if k == 12 {
        if na != 3 {
            return None;
        }
        match point_from(&g.args, 0) {
            Option::Some(p) => {
                proof {
                    assert(all_fixed(g@.args, 0, 3));
                    assert(p == point_at(g@.args, 0));
                }
                Some(Token::ConnectionRoadDead(p))
            },
            Option::None => {
                proof {
                    assert(g@.args[0] == g.args@[0]@);
                    assert(g@.args[1] == g.args@[1]@);
                    assert(g@.args[2] == g.args@[2]@);
                    assert(!all_fixed(g@.args, 0, 3));
                }
                None
            },
        }
    } else if k == 13 {
        if na != 4 {
            return None;
        }
        let x1 = match fixed_at(&g.args, 0) {
            Option::Some(v) => v,
            Option::None => {
                proof {
                    assert(g@.args[0] == g.args@[0]@);
                    assert(!all_fixed(g@.args, 0, 4));
                }
                return None;
            },
        };
        let z1 = match fixed_at(&g.args, 1) {
            Option::Some(v) => v,
            Option::None => {
                proof {
                    assert(g@.args[1] == g.args@[1]@);
                    assert(!all_fixed(g@.args, 0, 4));
                }
                return None;
            },
        };
        let x2 = match fixed_at(&g.args, 2) {
            Option::Some(v) => v,
            Option::None => {
                proof {
                    assert(g@.args[2] == g.args@[2]@);
                    assert(!all_fixed(g@.args, 0, 4));
                }
                return None;
            },
        };
        let z2 = match fixed_at(&g.args, 3) {
            Option::Some(v) => v,
            Option::None => {
                proof {
                    assert(g@.args[3] == g.args@[3]@);
                    assert(!all_fixed(g@.args, 0, 4));
                }
                return None;
            },
        };
        proof {
            assert(all_fixed(g@.args, 0, 4));
        }
        Some(Token::ConnectionsRoadDeadSquare(Rect { x1, z1, x2, z2 }))
    } else if k == 14 {
        if na != 6 {
            return None;
        }
        let w = match word_at(&g.args, 0) {
            Option::Some(v) => v,
            Option::None => {
                return None;
            },
        };
        let p = match point_from(&g.args, 1) {
            Option::Some(v) => v,
            Option::None => {
                proof {
                    assert(g@.args[1] == g.args@[1]@);
                    assert(g@.args[2] == g.args@[2]@);
                    assert(g@.args[3] == g.args@[3]@);
                    assert(!all_fixed(g@.args, 1, 6));
                }
                return None;
            },
        };
        let a = match fixed_at(&g.args, 4) {
            Option::Some(v) => v,
            Option::None => {
                proof {
                    assert(g@.args[4] == g.args@[4]@);
                    assert(!all_fixed(g@.args, 1, 6));
                }
                return None;
            },
        };
        let s = match fixed_at(&g.args, 5) {
            Option::Some(v) => v,
            Option::None => {
                proof {
                    assert(g@.args[5] == g.args@[5]@);
                    assert(!all_fixed(g@.args, 1, 6));
                }
                return None;
            },
        };
        match parse_particle_type(&w) {
            Option::Some(pt) => {
                proof {
                    assert(all_fixed(g@.args, 1, 6));
                    assert(p == point_at(g@.args, 1));
                }
                Some(Token::Particle((pt, p, a, s)))
            },
            Option::None => None,
        }
    } else if k == 16 || k == 19 || k == 20 {
        if na != 2 {
            return None;
        }
        let w = match word_at(&g.args, 0) {
            Option::Some(v) => v,
            Option::None => {
                return None;
            },
        };
        let f = match fixed_at(&g.args, 1) {
            Option::Some(v) => v,
            Option::None => {
                return None;
            },
        };
        if k == 16 {
            match parse_construction_phase(&w) {
                Option::Some(ph) => Some(Token::CostWork((ph, f))),
                Option::None => None,
            }
        } else if k == 19 {
            match parse_resource_type(&w) {
                Option::Some(rt) => Some(Token::CostResource((rt, f))),
                Option::None => None,
            }
        } else {
            match parse_construction_auto_cost(&w) {
                Option::Some(ca) => Some(Token::CostResourceAuto((ca, f))),
                Option::None => None,
            }
        }
    } else if k == 17 || k == 18 || k == 22 || k == 23 {
        if na != 1 {
            return None;
        }
        match word_at(&g.args, 0) {
            Option::Some(v) => {
                let id = IdStringParam(StrValue::Owned(v));
                if k == 17 {
                    Some(Token::CostWorkBuildingNode(id))
                } else if k == 18 {
                    Some(Token::CostWorkBuildingKeyword(id))
                } else if k == 22 {
                    Some(Token::CostWorkVehicleStationNode(id))
                } else {
                    Some(Token::StorageLivingAuto(id))
                }
            },
            Option::None => None,
        }
    } else {
        None
    }
}

pub open spec fn chunk_ok(c: ChunkS) -> bool {
    match c.tok {
        Option::Some(g) => decodable(g.kind, g.args),
        Option::None => false,
    }
}

/// The chunks that failed, in order.
pub open spec fn failed_chunks(chunks: Seq<ChunkS>) -> Seq<ChunkS>
    decreases chunks.len(),
{
    if chunks.len() == 0 {
        Seq::empty()
    } else if chunk_ok(chunks[0]) {
        failed_chunks(chunks.skip(1))
    } else {
        seq![chunks[0]] + failed_chunks(chunks.skip(1))
    }
}


/// One parsed chunk corresponds to one result item: same range, the decoded
/// token on success, the raw chunk text on failure.
pub open spec fn parse_item_ok(
    src: Seq<char>,
    c: ChunkS,
    item: (Span, Result<Token, ParseError>),
) -> bool {
    &&& item.0.start == c.start
    &&& item.0.end == c.end
    &&& match item.1 {
        Result::Ok(t) => c.tok is Some && token_matches(
            t,
            c.tok->Some_0.kind,
            c.tok->Some_0.args,
        ),
        Result::Err(e) => e.chunk@ == src.subrange(c.start, c.end),
    }
    &&& (chunk_ok(c) <==> item.1 is Ok)
}

/// Scan and decode a building configuration text; one result item per recognized
/// directive, in source order.
pub fn parse_tokens(src: &Vec<char>) -> (r: Vec<(Span, Result<Token, ParseError>)>)
    ensures
        r@.len() == scan_src(building_table_spec(), src@).len(),
        forall|i: int|
            0 <= i < r@.len() ==> parse_item_ok(
                src@,
                #[trigger] scan_src(building_table_spec(), src@)[i],
                r@[i],
            ),
{
    let tbl = building_table();
    let chunks = scan(&tbl, src);
    let ghost chs = scan_src(building_table_spec(), src@);
    proof {
        lemma_scan_spans(building_table_spec(), src@, 0, true);
    }
    let mut r: Vec<(Span, Result<Token, ParseError>)> = Vec::new();
    let n = chunks.len();
    let mut i: usize = 0;
    while i < n
        invariant
            i <= n == chunks@.len(),
            chunks@.map_values(|c: crate::scan::Chunk| c@) == chs,
            chs == scan_src(building_table_spec(), src@),
            forall|k: int|
                0 <= k < chs.len() ==> 0 <= (#[trigger] chs[k]).start <= chs[k].end
                    <= src@.len(),
            r@.len() == i,
            forall|k: int| 0 <= k < i ==> parse_item_ok(src@, #[trigger] chs[k], r@[k]),
        decreases n - i,
    {
        let c = &chunks[i];
        assert(c@ == chs[i as int]);
        let item: (Span, Result<Token, ParseError>) = match &c.tok {
            Option::Some(g) => {
                match decode(g) {
                    Option::Some(t) => (c.span, Ok(t)),
                    Option::None => (
                        c.span,
                        Err(ParseError { chunk: range_text(src, c.span.start, c.span.end) }),
                    ),
                }
            },
            Option::None => (
                c.span,
                Err(ParseError { chunk: range_text(src, c.span.start, c.span.end) }),
            ),
        };
        r.push(item);
        i += 1;
    }
    r
}

/// Strict parse: all decoded tokens in order, or every failed chunk.
pub fn parse_tokens_strict(src: &Vec<char>) -> (r: Result<
    Vec<(Span, Token)>,
    Vec<(Span, ParseError)>,
>)
    ensures
        ({
            let chs = scan_src(building_table_spec(), src@);
            match r {
                Result::Ok(toks) => {
                    &&& toks@.len() == chs.len()
                    &&& forall|i: int|
                        0 <= i < chs.len() ==> parse_item_ok(
                            src@,
                            #[trigger] chs[i],
                            (toks@[i].0, Result::Ok::<Token, ParseError>(toks@[i].1)),
                        )
                    &&& spans_wf(toks@.map_values(|p: (Span, Token)| p.0), src@.len() as int)
                },
                Result::Err(errs) => {
                    let f = failed_chunks(chs);
                    &&& f.len() >= 1
                    &&& errs@.len() == f.len()
                    &&& forall|i: int|
                        0 <= i < f.len() ==> (#[trigger] errs@[i]).0.start == f[i].start
                            && errs@[i].0.end == f[i].end && errs@[i].1.chunk@ == src@.subrange(
                            f[i].start,
                            f[i].end,
                        )
                },
            }
        }),
{
    let items = parse_tokens(src);
    let ghost chs = scan_src(building_table_spec(), src@);
    proof {
        lemma_scan_spans(building_table_spec(), src@, 0, true);
    }
    let mut toks: Vec<(Span, Token)> = Vec::new();
    let mut errs: Vec<(Span, ParseError)> = Vec::new();
    let ghost mut fails: Seq<ChunkS> = Seq::empty();
    let n = items.len();
    let mut items = items;
    let mut i: usize = 0;
    proof {
        assert(chs.skip(0) =~= chs);
    }
    while i < n
        invariant
            i <= n == chs.len(),
            items@.len() == n - i,
            forall|k: int|
                0 <= k < n - i ==> parse_item_ok(src@, #[trigger] chs[k + i], items@[k]),
            forall|k: int|
                0 <= k < chs.len() ==> 0 <= (#[trigger] chs[k]).start <= chs[k].end
                    <= src@.len(),
            forall|i2: int, j2: int|
                0 <= i2 < j2 < chs.len() ==> (#[trigger] chs[i2]).end <= (
                #[trigger] chs[j2]).start,
            fails.len() == 0 ==> toks@.len() == i,
            fails.len() == 0 ==> forall|k: int|
                0 <= k < i ==> parse_item_ok(
                    src@,
                    #[trigger] chs[k],
                    (toks@[k].0, Result::Ok::<Token, ParseError>(toks@[k].1)),
                ),
            failed_chunks(chs) == fails + failed_chunks(chs.skip(i as int)),
            errs@.len() == fails.len(),
            forall|k: int|
                0 <= k < fails.len() ==> (#[trigger] errs@[k]).0.start == fails[k].start
                    && errs@[k].0.end == fails[k].end && errs@[k].1.chunk@ == src@.subrange(
                    fails[k].start,
                    fails[k].end,
                ),
        decreases n - i,
    {
        let ghost old_items = items@;
        let ghost old_toks = toks@;
        let ghost old_errs = errs@;
        let item = items.remove(0);
        proof {
            assert(item == old_items[0]);
            assert(parse_item_ok(src@, chs[i as int], item));
            assert(forall|k: int| 0 <= k < old_items.len() - 1 ==> items@[k] == old_items[k + 1]);
            assert forall|k: int| 0 <= k < items@.len() implies parse_item_ok(
                src@,
                chs[k + i + 1],
                items@[k],
            ) by {
                assert(items@[k] == old_items[k + 1]);
                assert(parse_item_ok(src@, chs[(k + 1) + i as int], old_items[k + 1]));
            }
            assert(chs.skip(i as int)[0] == chs[i as int]);
            assert(chs.skip(i as int).skip(1) =~= chs.skip(i as int + 1));
        }
        let ghost sp0 = item.0;
        match item.1 {
            Result::Ok(t) => {
                proof {
                    assert(chunk_ok(chs[i as int]));
                    assert(failed_chunks(chs.skip(i as int)) == failed_chunks(
                        chs.skip(i as int + 1),
                    ));
                }
                toks.push((item.0, t));
                proof {
                    if fails.len() == 0 {
                        assert forall|k: int| 0 <= k < i + 1 implies parse_item_ok(
                            src@,
                            #[trigger] chs[k],
                            (toks@[k].0, Result::Ok::<Token, ParseError>(toks@[k].1)),
                        ) by {
                            if k < i {
                                assert(toks@[k] == old_toks[k]);
                            } else {
                                assert(toks@[k] == (sp0, toks@[k].1));
                            }
                        }
                    }
                }
            },
            Result::Err(e) => {
                proof {
                    assert(!chunk_ok(chs[i as int]));
                    assert(failed_chunks(chs.skip(i as int)) == seq![chs[i as int]]
                        + failed_chunks(chs.skip(i as int + 1)));
                    assert(fails + failed_chunks(chs.skip(i as int)) =~= (fails + seq![
                        chs[i as int],
                    ]) + failed_chunks(chs.skip(i as int + 1)));
                }
                errs.push((item.0, e));
                proof {
                    let oldfails = fails;
                    fails = fails + seq![chs[i as int]];
                    assert forall|k: int| 0 <= k < fails.len() implies (#[trigger] errs@[k]).0.start
                        == fails[k].start && errs@[k].0.end == fails[k].end && errs@[k].1.chunk@
                        == src@.subrange(fails[k].start, fails[k].end) by {
                        if k < oldfails.len() {
                            assert(errs@[k] == old_errs[k]);
                            assert(fails[k] == oldfails[k]);
                        } else {
                            assert(errs@[k] == errs@.last());
                            assert(fails[k] == chs[i as int]);
                        }
                    }
                }
            },
        }
        i += 1;
    }
    proof {
        assert(chs.skip(n as int) =~= Seq::<ChunkS>::empty());
        assert(failed_chunks(chs) =~= fails);
    }
    if errs.len() == 0 {
        proof {
            let sp = toks@.map_values(|p: (Span, Token)| p.0);
            assert forall|k: int| 0 <= k < sp.len() implies (#[trigger] sp[k]).start <= sp[k].end
                <= src@.len() by {
                assert(sp[k] == toks@[k].0);
                assert(parse_item_ok(
                    src@,
                    chs[k],
                    (toks@[k].0, Result::Ok::<Token, ParseError>(toks@[k].1)),
                ));
            }
            assert forall|i2: int, j2: int| 0 <= i2 < j2 < sp.len() implies (
            #[trigger] sp[i2]).end <= (#[trigger] sp[j2]).start by {
                assert(sp[i2] == toks@[i2].0);
                assert(sp[j2] == toks@[j2].0);
                assert(parse_item_ok(
                    src@,
                    chs[i2],
                    (toks@[i2].0, Result::Ok::<Token, ParseError>(toks@[i2].1)),
                ));
                assert(parse_item_ok(
                    src@,
                    chs[j2],
                    (toks@[j2].0, Result::Ok::<Token, ParseError>(toks@[j2].1)),
                ));
                assert(chs[i2].end <= chs[j2].start);
            }
            assert(spans_wf(sp, src@.len() as int));
        }
        Ok(toks)
    } else {
        Err(errs)
    }
}

/// A parsed building configuration file.
pub type BuildingIni = IniFile<Token>;

/// Parse a building configuration text strictly into a file state.
pub fn parse_building_ini(src: Vec<char>) -> (r: Result<
    BuildingIni,
    Vec<(Span, ParseError)>,
>)
    ensures
        match r {
            Result::Ok(f) => {
                let chs = scan_src(building_table_spec(), src@);
                &&& f.src@ == src@
                &&& f.wf()
                &&& f.toks@.len() == chs.len()
                &&& forall|i: int|
                    0 <= i < chs.len() ==> !(#[trigger] f.toks@[i]).1.is_modified()
                        && parse_item_ok(
                        src@,
                        chs[i],
                        (f.toks@[i].0, Result::Ok::<Token, ParseError>(*f.toks@[i].1.get())),
                    )
            },
            Result::Err(errs) => {
                let f = failed_chunks(scan_src(building_table_spec(), src@));
                &&& f.len() >= 1
                &&& errs@.len() == f.len()
                &&& forall|i: int|
                    0 <= i < f.len() ==> (#[trigger] errs@[i]).0.start == f[i].start
                        && errs@[i].0.end == f[i].end && errs@[i].1.chunk@ == src@.subrange(
                        f[i].start,
                        f[i].end,
                    )
            },
        },
{
    match parse_tokens_strict(&src) {
        Result::Err(errs) => Err(errs),
        Result::Ok(toks) => {
            let ghost tv = toks@;
            let f = IniFile::from_parts(src, toks);
            proof {
                assert(forall|i: int|
                    0 <= i < tv.len() ==> (#[trigger] f.toks@[i]).1 == IniTokenState::Original(
                        tv[i].1,
                    ));
            }
            Ok(f)
        },
    }
}



// ---------------------------------------------------------------------------
// serialization

pub open spec fn crlf() -> Seq<char> {
    seq!['\r', '\n']
}

/// The text of a point: its three coordinates separated by spaces.
pub open spec fn point_str(p: Point3f) -> Seq<char> {
    fixed_str(p.x as int) + seq![' '] + fixed_str(p.y as int) + seq![' '] + fixed_str(p.z as int)
}

/// A keyword followed by two points on their own lines.
pub open spec fn two_point_str(kw: Seq<char>, a: Point3f, b: Point3f) -> Seq<char> {
    kw + crlf() + point_str(a) + crlf() + point_str(b)
}

fn push_text(out: &mut Vec<char>, s: &Vec<char>)
    ensures
        final(out)@ == old(out)@ + s@,
{
    let ghost base = out@;
    let mut c = range_text(s, 0, s.len());
    out.append(&mut c);
    proof {
        assert(out@ =~= base + s@);
    }
}

fn push_lit(out: &mut Vec<char>, s: &str)
    ensures
        final(out)@ == old(out)@ + s@,
{
    let ghost base = out@;
    let mut c = chars_of(s);
    out.append(&mut c);
    proof {
        assert(out@ =~= base + s@);
    }
}

fn push_fixed(out: &mut Vec<char>, v: i64)
    ensures
        final(out)@ == old(out)@ + fixed_str(v as int),
{
    let ghost base = out@;
    let mut c = format_fixed(v);
    out.append(&mut c);
    proof {
        assert(out@ =~= base + fixed_str(v as int));
    }
}

fn push_dec(out: &mut Vec<char>, n: u32)
    ensures
        final(out)@ == old(out)@ + dec_str(n as int),
{
    let ghost base = out@;
    let mut c = to_dec(n as u64);
    out.append(&mut c);
    proof {
        assert(out@ =~= base + dec_str(n as int));
    }
}

fn push_point(out: &mut Vec<char>, p: Point3f)
    ensures
        final(out)@ == old(out)@ + point_str(p),
{
    let ghost base = out@;
    push_fixed(out, p.x);
    out.push(' ');
    push_fixed(out, p.y);
    out.push(' ');
    push_fixed(out, p.z);
    proof {
        assert(out@ =~= base + point_str(p));
    }
}

fn ser_two_points(kw: &str, a: Point3f, b: Point3f) -> (r: Vec<char>)
    ensures
        r@ == two_point_str(kw@, a, b),
{
    let mut out: Vec<char> = Vec::new();
    push_lit(&mut out, kw);
    out.push('\r');
    out.push('\n');
    push_point(&mut out, a);
    out.push('\r');
    out.push('\n');
    push_point(&mut out, b);
    proof {
        assert(out@ =~= two_point_str(kw@, a, b));
    }
    out
}

impl IniToken for Token {
    open spec fn ser_spec(&self) -> Seq<char> {
        match self {
            Token::NameStr(q) => "NAME_STR"@ + seq![' ', '"'] + q.text() + seq!['"'],
            Token::Name(n) => "NAME"@ + seq![' '] + dec_str(*n as int),
            Token::BuildingType(b) => "TYPE_"@ + building_type_name(*b),
            Token::BuildingSubtype(b) => "SUBTYPE_"@ + building_subtype_name(*b),
            Token::CivilBuilding => "CIVIL_BUILDING"@,
            Token::QualityOfLiving(f) => "QUALITY_OF_LIVING"@ + seq![' '] + fixed_str(*f as int),
            Token::WorkersNeeded(n) => "WORKERS_NEEDED"@ + seq![' '] + dec_str(*n as int),
            Token::ProfessorsNeeded(n) => "PROFESORS_NEEDED"@ + seq![' '] + dec_str(*n as int),
            Token::CitizenAbleServe(n) => "CITIZEN_ABLE_SERVE"@ + seq![' '] + dec_str(*n as int),
            Token::Storage((c, f)) => "STORAGE"@ + seq![' '] + storage_cargo_name(*c) + seq![' ']
                + fixed_str(*f as int),
            Token::ConnectionPedestrian((a, b)) => two_point_str("CONNECTION_PEDESTRIAN"@, *a, *b),
            Token::ConnectionRoad((a, b)) => two_point_str("CONNECTION_ROAD"@, *a, *b),
            Token::ConnectionRoadDead(p) => "CONNECTION_ROAD_DEAD"@ + crlf() + point_str(*p),
            Token::ConnectionsRoadDeadSquare(r) => "CONNECTIONS_ROAD_DEAD_SQUARE"@ + crlf()
                + fixed_str(r.x1 as int) + seq![' '] + fixed_str(r.z1 as int) + crlf() + fixed_str(
                r.x2 as int,
            ) + seq![' '] + fixed_str(r.z2 as int),
            Token::Particle((pt, p, a, s)) => "PARTICLE"@ + seq![' '] + particle_type_name(*pt)
                + seq![' '] + point_str(*p) + seq![' '] + fixed_str(*a as int) + seq![' ']
                + fixed_str(*s as int),
            Token::TextCaption((a, b)) => two_point_str("TEXT_CAPTION"@, *a, *b),
            Token::CostWork((ph, f)) => "COST_WORK"@ + seq![' '] + construction_phase_name(*ph)
                + seq![' '] + fixed_str(*f as int),
            Token::CostWorkBuildingNode(id) => "COST_WORK_BUILDING_NODE"@ + seq![' '] + id.text(),
            Token::CostWorkBuildingKeyword(id) => "COST_WORK_BUILDING_KEYWORD"@ + seq![' ']
                + id.text(),
            Token::CostResource((rt, f)) => "COST_RESOURCE"@ + seq![' '] + resource_type_name(*rt)
                + seq![' '] + fixed_str(*f as int),
            Token::CostResourceAuto((ca, f)) => "COST_RESOURCE_AUTO"@ + seq![' ']
                + construction_auto_cost_name(*ca) + seq![' '] + fixed_str(*f as int),
            Token::CostWorkVehicleStation((a, b)) => two_point_str(
                "COST_WORK_VEHICLE_STATION"@,
                *a,
                *b,
            ),
            Token::CostWorkVehicleStationNode(id) => "COST_WORK_VEHICLE_STATION_ACCORDING_NODE"@
                + seq![' '] + id.text(),
            Token::StorageLivingAuto(id) => "STORAGE_LIVING_AUTO"@ + seq![' '] + id.text(),
        }
    }

    #[verifier::rlimit(60)]
    fn serialize(&self) -> (r: Vec<char>) {
        let mut out: Vec<char> = Vec::new();
        match self {
            Token::NameStr(q) => {
                push_lit(&mut out, "NAME_STR");
                out.push(' ');
                out.push('"');
                push_text(&mut out, q.0.value());
                out.push('"');
                assert(out@ =~= self.ser_spec());
            },
            Token::Name(n) => {
                push_lit(&mut out, "NAME");
                out.push(' ');
                push_dec(&mut out, *n);
                assert(out@ =~= self.ser_spec());
            },
            Token::BuildingType(b) => {
                push_lit(&mut out, "TYPE_");
                push_lit(&mut out, b.name());
                assert(out@ =~= self.ser_spec());
            },
            Token::BuildingSubtype(b) => {
                push_lit(&mut out, "SUBTYPE_");
                push_lit(&mut out, b.name());
                assert(out@ =~= self.ser_spec());
            },
            Token::CivilBuilding => {
                push_lit(&mut out, "CIVIL_BUILDING");
                assert(out@ =~= self.ser_spec());
            },
            Token::QualityOfLiving(f) => {
                push_lit(&mut out, "QUALITY_OF_LIVING");
                out.push(' ');
                push_fixed(&mut out, *f);
                assert(out@ =~= self.ser_spec());
            },
            Token::WorkersNeeded(n) => {
                push_lit(&mut out, "WORKERS_NEEDED");
                out.push(' ');
                push_dec(&mut out, *n);
                assert(out@ =~= self.ser_spec());
            },
            Token::ProfessorsNeeded(n) => {
                push_lit(&mut out, "PROFESORS_NEEDED");
                out.push(' ');
                push_dec(&mut out, *n);
                assert(out@ =~= self.ser_spec());
            },
            Token::CitizenAbleServe(n) => {
                push_lit(&mut out, "CITIZEN_ABLE_SERVE");
                out.push(' ');
                push_dec(&mut out, *n);
                assert(out@ =~= self.ser_spec());
            },
            Token::Storage((c, f)) => {
                push_lit(&mut out, "STORAGE");
                out.push(' ');
                push_lit(&mut out, c.name());
                out.push(' ');
                push_fixed(&mut out, *f);
                assert(out@ =~= self.ser_spec());
            },
            Token::ConnectionPedestrian((a, b)) => {
                out = ser_two_points("CONNECTION_PEDESTRIAN", *a, *b);
                assert(out@ =~= self.ser_spec());
            },
            Token::ConnectionRoad((a, b)) => {
                out = ser_two_points("CONNECTION_ROAD", *a, *b);
                assert(out@ =~= self.ser_spec());
            },
            Token::ConnectionRoadDead(p) => {
                push_lit(&mut out, "CONNECTION_ROAD_DEAD");
                out.push('\r');
                out.push('\n');
                push_point(&mut out, *p);
                assert(out@ =~= self.ser_spec());
            },
            Token::ConnectionsRoadDeadSquare(r) => {
                push_lit(&mut out, "CONNECTIONS_ROAD_DEAD_SQUARE");
                out.push('\r');
                out.push('\n');
                push_fixed(&mut out, r.x1);
                out.push(' ');
                push_fixed(&mut out, r.z1);
                out.push('\r');
                out.push('\n');
                push_fixed(&mut out, r.x2);
                out.push(' ');
                push_fixed(&mut out, r.z2);
                assert(out@ =~= self.ser_spec());
            },
            Token::Particle((pt, p, a, s)) => {
                push_lit(&mut out, "PARTICLE");
                out.push(' ');
                push_lit(&mut out, pt.name());
                out.push(' ');
                push_point(&mut out, *p);
                out.push(' ');
                push_fixed(&mut out, *a);
                out.push(' ');
                push_fixed(&mut out, *s);
                assert(out@ =~= self.ser_spec());
            },
            Token::TextCaption((a, b)) => {
                out = ser_two_points("TEXT_CAPTION", *a, *b);
                assert(out@ =~= self.ser_spec());
            },
            Token::CostWork((ph, f)) => {
                push_lit(&mut out, "COST_WORK");
                out.push(' ');
                push_lit(&mut out, ph.name());
                out.push(' ');
                push_fixed(&mut out, *f);
                assert(out@ =~= self.ser_spec());
            },
            Token::CostWorkBuildingNode(id) => {
                push_lit(&mut out, "COST_WORK_BUILDING_NODE");
                out.push(' ');
                push_text(&mut out, id.0.value());
                assert(out@ =~= self.ser_spec());
            },
            Token::CostWorkBuildingKeyword(id) => {
                push_lit(&mut out, "COST_WORK_BUILDING_KEYWORD");
                out.push(' ');
                push_text(&mut out, id.0.value());
                assert(out@ =~= self.ser_spec());
            },
            Token::CostResource((rt, f)) => {
                push_lit(&mut out, "COST_RESOURCE");
                out.push(' ');
                push_lit(&mut out, rt.name());
                out.push(' ');
                push_fixed(&mut out, *f);
                assert(out@ =~= self.ser_spec());
            },
            Token::CostResourceAuto((ca, f)) => {
                push_lit(&mut out, "COST_RESOURCE_AUTO");
                out.push(' ');
                push_lit(&mut out, ca.name());
                out.push(' ');
                push_fixed(&mut out, *f);
                assert(out@ =~= self.ser_spec());
            },
            Token::CostWorkVehicleStation((a, b)) => {
                out = ser_two_points("COST_WORK_VEHICLE_STATION", *a, *b);
                assert(out@ =~= self.ser_spec());
            },
            Token::CostWorkVehicleStationNode(id) => {
                push_lit(&mut out, "COST_WORK_VEHICLE_STATION_ACCORDING_NODE");
                out.push(' ');
                push_text(&mut out, id.0.value());
                assert(out@ =~= self.ser_spec());
            },
            Token::StorageLivingAuto(id) => {
                push_lit(&mut out, "STORAGE_LIVING_AUTO");
                out.push(' ');
                push_text(&mut out, id.0.value());
                assert(out@ =~= self.ser_spec());
            },
        }
        out
    }
}

// ---------------------------------------------------------------------------
// scaling of connection tokens

/// Whether a scaled coordinate still fits the representation.
pub open spec fn scale_ok(c: i64, f: i64) -> bool {
    abs1(scale_fixed(c as int, f as int)) <= i64::MAX
}

pub open spec fn point_scale_ok(p: Point3f, f: i64) -> bool {
    scale_ok(p.x, f) && scale_ok(p.y, f) && scale_ok(p.z, f)
}

pub open spec fn point_scaled(p: Point3f, f: i64) -> Point3f {
    Point3f {
        x: scale_fixed(p.x as int, f as int) as i64,
        y: scale_fixed(p.y as int, f as int) as i64,
        z: scale_fixed(p.z as int, f as int) as i64,
    }
}

/// Scale one point, truncating each coordinate toward zero.
pub fn scale_point(factor: i64, p: Point3f) -> (r: Option<Point3f>)
    ensures
        match r {
            Option::Some(q) => point_scale_ok(p, factor) && q == point_scaled(p, factor),
            Option::None => !point_scale_ok(p, factor),
        },
{
    let x = match scale_coord(p.x, factor) {
        Option::Some(v) => v,
        Option::None => {
            return None;
        },
    };
    let y = match scale_coord(p.y, factor) {
        Option::Some(v) => v,
        Option::None => {
            return None;
        },
    };
    let z = match scale_coord(p.z, factor) {
        Option::Some(v) => v,
        Option::None => {
            return None;
        },
    };
    Some(Point3f { x, y, z })
}

/// Scale a pair of points.
pub fn scale_2_points(factor: i64, a: Point3f, b: Point3f) -> (r: Option<(Point3f, Point3f)>)
    ensures
        match r {
            Option::Some(q) => point_scale_ok(a, factor) && point_scale_ok(b, factor) && q == (
                point_scaled(a, factor),
                point_scaled(b, factor),
            ),
            Option::None => !(point_scale_ok(a, factor) && point_scale_ok(b, factor)),
        },
{
    let sa = match scale_point(factor, a) {
        Option::Some(v) => v,
        Option::None => {
            return None;
        },
    };
    let sb = match scale_point(factor, b) {
        Option::Some(v) => v,
        Option::None => {
            return None;
        },
    };
    Some((sa, sb))
}


/// Scaling a point by `a` then `b` agrees with scaling once by the
/// composed factor up to one fixed-point truncation step per coordinate —
/// the connection-token analog of the model-scale composition law; tokens
/// that scaling does not touch are unchanged by every factor.
pub proof fn lemma_point_scale_composition(p: Point3f, a: i64, b: i64)
    requires
        a >= 0,
        b >= 0,
    ensures
        10000 * (scale_fixed(scale_fixed(p.x as int, a as int), b as int) - scale_fixed(
            p.x as int,
            scale_fixed(a as int, b as int),
        )) <= 9999 + abs1(p.x as int) + b,
        10000 * (scale_fixed(p.x as int, scale_fixed(a as int, b as int)) - scale_fixed(
            scale_fixed(p.x as int, a as int),
            b as int,
        )) <= 9999 + abs1(p.x as int) + b,
        10000 * (scale_fixed(scale_fixed(p.y as int, a as int), b as int) - scale_fixed(
            p.y as int,
            scale_fixed(a as int, b as int),
        )) <= 9999 + abs1(p.y as int) + b,
        10000 * (scale_fixed(p.y as int, scale_fixed(a as int, b as int)) - scale_fixed(
            scale_fixed(p.y as int, a as int),
            b as int,
        )) <= 9999 + abs1(p.y as int) + b,
        10000 * (scale_fixed(scale_fixed(p.z as int, a as int), b as int) - scale_fixed(
            p.z as int,
            scale_fixed(a as int, b as int),
        )) <= 9999 + abs1(p.z as int) + b,
        10000 * (scale_fixed(p.z as int, scale_fixed(a as int, b as int)) - scale_fixed(
            scale_fixed(p.z as int, a as int),
            b as int,
        )) <= 9999 + abs1(p.z as int) + b,
{
    crate::fixp::lemma_scale_compose(p.x as int, a as int, b as int);
    crate::fixp::lemma_scale_compose(p.y as int, a as int, b as int);
    crate::fixp::lemma_scale_compose(p.z as int, a as int, b as int);
}

impl Token {
    /// Scale the tokens that carry world-space connection geometry; every
    /// other token is left alone (`None`).
    pub fn maybe_scale(&self, factor: i64) -> (r: Option<Token>)
        ensures
            match self {
                Token::ConnectionPedestrian((a, b)) => if point_scale_ok(*a, factor)
                    && point_scale_ok(*b, factor) {
                    r == Option::Some(
                        Token::ConnectionPedestrian(
                            (point_scaled(*a, factor), point_scaled(*b, factor)),
                        ),
                    )
                } else {
                    r is None
                },
                Token::ConnectionRoad((a, b)) => if point_scale_ok(*a, factor) && point_scale_ok(
                    *b,
                    factor,
                ) {
                    r == Option::Some(
                        Token::ConnectionRoad(
                            (point_scaled(*a, factor), point_scaled(*b, factor)),
                        ),
                    )
                } else {
                    r is None
                },
                _ => r is None,
            },
    {
        match self {
            Token::ConnectionPedestrian((a, b)) => match scale_2_points(factor, *a, *b) {
                Option::Some(q) => Some(Token::ConnectionPedestrian(q)),
                Option::None => None,
            },
            Token::ConnectionRoad((a, b)) => match scale_2_points(factor, *a, *b) {
                Option::Some(q) => Some(Token::ConnectionRoad(q)),
                Option::None => None,
            },
            _ => None,
        }
    }
}

} // verus!
