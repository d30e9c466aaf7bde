//! The unit catalog: the named units of each quantity kind, each with its
//! rational ratio to the kind's base unit, a default short symbol, a long
//! name, and aliases. Lookup scans a kind's units in declaration order.

use vstd::prelude::*;
use crate::float::{div_model, int_model, Float, FloatModel};
use crate::text::{str_eq, string_from};

verus! {

#[derive(Debug, Clone, Copy, PartialEq, Eq, Structural)]
pub enum LengthUnit {
    Meter,
    Kilometer,
    Megameter,
    Gigameter,
    Terameter,
    Petameter,
    Exameter,
    Centimeter,
    Millimeter,
    Micrometer,
    Nanometer,
    Picometer,
    Femtometer,
    Attometer,
    Inch,
    Foot,
    Yard,
    Mile,
    NauticalMile,
}

impl LengthUnit {
    /// The unit a piece of text names, by symbol, long name or alias.
    pub open spec fn spec_from_text(s: Seq<char>) -> Option<LengthUnit> {
        if s == "m"@ || s == "meter"@ || s == "meters"@ {
            Some(LengthUnit::Meter)
        } else if s == "km"@ || s == "kilometer"@ || s == "kilometers"@ {
            Some(LengthUnit::Kilometer)
        } else if s == "Mm"@ || s == "megameter"@ || s == "megameters"@ {
            Some(LengthUnit::Megameter)
        } else if s == "Gm"@ || s == "gigameter"@ || s == "gigameters"@ {
            Some(LengthUnit::Gigameter)
        } else if s == "Tm"@ || s == "terameter"@ || s == "terameters"@ {
            Some(LengthUnit::Terameter)
        } else if s == "Pm"@ || s == "petameter"@ || s == "petameters"@ {
            Some(LengthUnit::Petameter)
        } else if s == "Em"@ || s == "exameter"@ || s == "exameters"@ {
            Some(LengthUnit::Exameter)
        } else if s == "cm"@ || s == "centimeter"@ || s == "centimeters"@ {
            Some(LengthUnit::Centimeter)
        } else if s == "mm"@ || s == "millimeter"@ || s == "millimeters"@ {
            Some(LengthUnit::Millimeter)
        } else if s == "um"@ || s == "micrometer"@ || s == "micrometers"@ {
            Some(LengthUnit::Micrometer)
        } else if s == "nm"@ || s == "nanometer"@ || s == "nanometers"@ {
            Some(LengthUnit::Nanometer)
        } else if s == "pm"@ || s == "picometer"@ || s == "picometers"@ {
            Some(LengthUnit::Picometer)
        } else if s == "fm"@ || s == "femtometer"@ || s == "femtometers"@ {
            Some(LengthUnit::Femtometer)
        } else if s == "am"@ || s == "attometer"@ || s == "attometers"@ {
            Some(LengthUnit::Attometer)
        } else if s == "in"@ || s == "inch"@ || s == "inches"@ {
            Some(LengthUnit::Inch)
        } else if s == "ft"@ || s == "foot"@ || s == "feet"@ {
            Some(LengthUnit::Foot)
        } else if s == "yd"@ || s == "yard"@ || s == "yards"@ {
            Some(LengthUnit::Yard)
        } else if s == "mi"@ || s == "mile"@ || s == "miles"@ {
            Some(LengthUnit::Mile)
        } else if s == "nmi"@ || s == "nautical mile"@ || s == "nautical miles"@ {
            Some(LengthUnit::NauticalMile)
        } else {
            None
        }
    }

    pub fn from_text(s: &str) -> (r: Option<LengthUnit>)
        ensures
            r == Self::spec_from_text(s@),
    {
        if str_eq(s, "m") || str_eq(s, "meter") || str_eq(s, "meters") {
            Some(LengthUnit::Meter)
        } else if str_eq(s, "km") || str_eq(s, "kilometer") || str_eq(s, "kilometers") {
            Some(LengthUnit::Kilometer)
        } else if str_eq(s, "Mm") || str_eq(s, "megameter") || str_eq(s, "megameters") {
            Some(LengthUnit::Megameter)
        } else if str_eq(s, "Gm") || str_eq(s, "gigameter") || str_eq(s, "gigameters") {
            Some(LengthUnit::Gigameter)
        } else if str_eq(s, "Tm") || str_eq(s, "terameter") || str_eq(s, "terameters") {
            Some(LengthUnit::Terameter)
        } else if str_eq(s, "Pm") || str_eq(s, "petameter") || str_eq(s, "petameters") {
            Some(LengthUnit::Petameter)
        } else if str_eq(s, "Em") || str_eq(s, "exameter") || str_eq(s, "exameters") {
            Some(LengthUnit::Exameter)
        } else if str_eq(s, "cm") || str_eq(s, "centimeter") || str_eq(s, "centimeters") {
            Some(LengthUnit::Centimeter)
        } else if str_eq(s, "mm") || str_eq(s, "millimeter") || str_eq(s, "millimeters") {
            Some(LengthUnit::Millimeter)
        } else if str_eq(s, "um") || str_eq(s, "micrometer") || str_eq(s, "micrometers") {
            Some(LengthUnit::Micrometer)
        } else if str_eq(s, "nm") || str_eq(s, "nanometer") || str_eq(s, "nanometers") {
            Some(LengthUnit::Nanometer)
        } else if str_eq(s, "pm") || str_eq(s, "picometer") || str_eq(s, "picometers") {
            Some(LengthUnit::Picometer)
        } else if str_eq(s, "fm") || str_eq(s, "femtometer") || str_eq(s, "femtometers") {
            Some(LengthUnit::Femtometer)
        } else if str_eq(s, "am") || str_eq(s, "attometer") || str_eq(s, "attometers") {
            Some(LengthUnit::Attometer)
        } else if str_eq(s, "in") || str_eq(s, "inch") || str_eq(s, "inches") {
            Some(LengthUnit::Inch)
        } else if str_eq(s, "ft") || str_eq(s, "foot") || str_eq(s, "feet") {
            Some(LengthUnit::Foot)
        } else if str_eq(s, "yd") || str_eq(s, "yard") || str_eq(s, "yards") {
            Some(LengthUnit::Yard)
        } else if str_eq(s, "mi") || str_eq(s, "mile") || str_eq(s, "miles") {
            Some(LengthUnit::Mile)
        } else if str_eq(s, "nmi") || str_eq(s, "nautical mile") || str_eq(s, "nautical miles") {
            Some(LengthUnit::NauticalMile)
        } else {
            None
        }
    }

    /// The ratio of this unit to the kind's base unit, as the quotient of
    /// the catalog's integer pair at the working precision.
    pub open spec fn spec_ratio(self) -> FloatModel {
        match self {
            LengthUnit::Meter => div_model(int_model(1), int_model(1)),
            LengthUnit::Kilometer => div_model(int_model(1000), int_model(1)),
            LengthUnit::Megameter => div_model(int_model(1000000), int_model(1)),
            LengthUnit::Gigameter => div_model(int_model(1000000000), int_model(1)),
            LengthUnit::Terameter => div_model(int_model(1000000000000), int_model(1)),
            LengthUnit::Petameter => div_model(int_model(1000000000000000), int_model(1)),
            LengthUnit::Exameter => div_model(int_model(1000000000000000000), int_model(1)),
            LengthUnit::Centimeter => div_model(int_model(1), int_model(100)),
            LengthUnit::Millimeter => div_model(int_model(1), int_model(1000)),
            LengthUnit::Micrometer => div_model(int_model(1), int_model(1000000)),
            LengthUnit::Nanometer => div_model(int_model(1), int_model(1000000000)),
            LengthUnit::Picometer => div_model(int_model(1), int_model(1000000000000)),
            LengthUnit::Femtometer => div_model(int_model(1), int_model(1000000000000000)),
            LengthUnit::Attometer => div_model(int_model(1), int_model(1000000000000000000)),
            LengthUnit::Inch => div_model(int_model(254), int_model(10000)),
            LengthUnit::Foot => div_model(int_model(3048), int_model(10000)),
            LengthUnit::Yard => div_model(int_model(9144), int_model(10000)),
            LengthUnit::Mile => div_model(int_model(1609344), int_model(10000)),
            LengthUnit::NauticalMile => div_model(int_model(1852), int_model(1)),
        }
    }

    pub fn ratio(&self) -> (r: Float)
        ensures
            r@ == self.spec_ratio(),
    {
        match *self {
            LengthUnit::Meter => Float::from_i64(1).div(&Float::from_i64(1)),
            LengthUnit::Kilometer => Float::from_i64(1000).div(&Float::from_i64(1)),
            LengthUnit::Megameter => Float::from_i64(1000000).div(&Float::from_i64(1)),
            LengthUnit::Gigameter => Float::from_i64(1000000000).div(&Float::from_i64(1)),
            LengthUnit::Terameter => Float::from_i64(1000000000000).div(&Float::from_i64(1)),
            LengthUnit::Petameter => Float::from_i64(1000000000000000).div(&Float::from_i64(1)),
            LengthUnit::Exameter => Float::from_i64(1000000000000000000).div(&Float::from_i64(1)),
            LengthUnit::Centimeter => Float::from_i64(1).div(&Float::from_i64(100)),
            LengthUnit::Millimeter => Float::from_i64(1).div(&Float::from_i64(1000)),
            LengthUnit::Micrometer => Float::from_i64(1).div(&Float::from_i64(1000000)),
            LengthUnit::Nanometer => Float::from_i64(1).div(&Float::from_i64(1000000000)),
            LengthUnit::Picometer => Float::from_i64(1).div(&Float::from_i64(1000000000000)),
            LengthUnit::Femtometer => Float::from_i64(1).div(&Float::from_i64(1000000000000000)),
            LengthUnit::Attometer => Float::from_i64(1).div(&Float::from_i64(1000000000000000000)),
            LengthUnit::Inch => Float::from_i64(254).div(&Float::from_i64(10000)),
            LengthUnit::Foot => Float::from_i64(3048).div(&Float::from_i64(10000)),
            LengthUnit::Yard => Float::from_i64(9144).div(&Float::from_i64(10000)),
            LengthUnit::Mile => Float::from_i64(1609344).div(&Float::from_i64(10000)),
            LengthUnit::NauticalMile => Float::from_i64(1852).div(&Float::from_i64(1)),
        }
    }

    /// The default short symbol of the unit.
    pub open spec fn spec_shorthand(self) -> Seq<char> {
        match self {
            LengthUnit::Meter => "m"@,
            LengthUnit::Kilometer => "km"@,
            LengthUnit::Megameter => "Mm"@,
            LengthUnit::Gigameter => "Gm"@,
            LengthUnit::Terameter => "Tm"@,
            LengthUnit::Petameter => "Pm"@,
            LengthUnit::Exameter => "Em"@,
            LengthUnit::Centimeter => "cm"@,
            LengthUnit::Millimeter => "mm"@,
            LengthUnit::Micrometer => "um"@,
            LengthUnit::Nanometer => "nm"@,
            LengthUnit::Picometer => "pm"@,
            LengthUnit::Femtometer => "fm"@,
            LengthUnit::Attometer => "am"@,
            LengthUnit::Inch => "in"@,
            LengthUnit::Foot => "ft"@,
            LengthUnit::Yard => "yd"@,
            LengthUnit::Mile => "mi"@,
            LengthUnit::NauticalMile => "nmi"@,
        }
    }

    pub fn shorthand(&self) -> (r: String)
        ensures
            r@ == self.spec_shorthand(),
    {
        match *self {
            LengthUnit::Meter => string_from("m"),
            LengthUnit::Kilometer => string_from("km"),
            LengthUnit::Megameter => string_from("Mm"),
            LengthUnit::Gigameter => string_from("Gm"),
            LengthUnit::Terameter => string_from("Tm"),
            LengthUnit::Petameter => string_from("Pm"),
            LengthUnit::Exameter => string_from("Em"),
            LengthUnit::Centimeter => string_from("cm"),
            LengthUnit::Millimeter => string_from("mm"),
            LengthUnit::Micrometer => string_from("um"),
            LengthUnit::Nanometer => string_from("nm"),
            LengthUnit::Picometer => string_from("pm"),
            LengthUnit::Femtometer => string_from("fm"),
            LengthUnit::Attometer => string_from("am"),
            LengthUnit::Inch => string_from("in"),
            LengthUnit::Foot => string_from("ft"),
            LengthUnit::Yard => string_from("yd"),
            LengthUnit::Mile => string_from("mi"),
            LengthUnit::NauticalMile => string_from("nmi"),
        }
    }
}

#[derive(Debug, Clone, Copy, PartialEq, Eq, Structural)]
pub enum TimeUnit {
    Second,
    Millisecond,
    Microsecond,
    Nanosecond,
    Picosecond,
    Minute,
    Hour,
    Day,
    Week,
    Month,
    Year,
}

impl TimeUnit {
    /// The unit a piece of text names, by symbol, long name or alias.
    pub open spec fn spec_from_text(s: Seq<char>) -> Option<TimeUnit> {
        if s == "s"@ || s == "second"@ || s == "sec"@ || s == "seconds"@ || s == "secs"@ {
            Some(TimeUnit::Second)
        } else if s == "ms"@ || s == "millisecond"@ || s == "milliseconds"@ || s == "millisec"@ || s == "msec"@ || s == "msecs"@ {
            Some(TimeUnit::Millisecond)
        } else if s == "us"@ || s == "microsecond"@ || s == "microseconds"@ || s == "microsec"@ || s == "usec"@ || s == "usecs"@ {
            Some(TimeUnit::Microsecond)
        } else if s == "ns"@ || s == "nanosecond"@ || s == "nanoseconds"@ || s == "nanosec"@ || s == "nsec"@ || s == "nsecs"@ {
            Some(TimeUnit::Nanosecond)
        } else if s == "ps"@ || s == "picosecond"@ || s == "picoseconds"@ || s == "picosec"@ || s == "psec"@ || s == "psecs"@ {
            Some(TimeUnit::Picosecond)
        } else if s == "min"@ || s == "minute"@ || s == "minutes"@ {
            Some(TimeUnit::Minute)
        } else if s == "h"@ || s == "hour"@ || s == "hours"@ {
            Some(TimeUnit::Hour)
        } else if s == "d"@ || s == "day"@ || s == "days"@ {
            Some(TimeUnit::Day)
        } else if s == "w"@ || s == "week"@ || s == "weeks"@ {
            Some(TimeUnit::Week)
        } else if s == "mo"@ || s == "month"@ || s == "months"@ {
            Some(TimeUnit::Month)
        } else if s == "y"@ || s == "year"@ || s == "years"@ {
            Some(TimeUnit::Year)
        } else {
            None
        }
    }

    pub fn from_text(s: &str) -> (r: Option<TimeUnit>)
        ensures
            r == Self::spec_from_text(s@),
    {
        if str_eq(s, "s") || str_eq(s, "second") || str_eq(s, "sec") || str_eq(s, "seconds") || str_eq(s, "secs") {
            Some(TimeUnit::Second)
        } else if str_eq(s, "ms") || str_eq(s, "millisecond") || str_eq(s, "milliseconds") || str_eq(s, "millisec") || str_eq(s, "msec") || str_eq(s, "msecs") {
            Some(TimeUnit::Millisecond)
        } else if str_eq(s, "us") || str_eq(s, "microsecond") || str_eq(s, "microseconds") || str_eq(s, "microsec") || str_eq(s, "usec") || str_eq(s, "usecs") {
            Some(TimeUnit::Microsecond)
        } else if str_eq(s, "ns") || str_eq(s, "nanosecond") || str_eq(s, "nanoseconds") || str_eq(s, "nanosec") || str_eq(s, "nsec") || str_eq(s, "nsecs") {
            Some(TimeUnit::Nanosecond)
        } else if str_eq(s, "ps") || str_eq(s, "picosecond") || str_eq(s, "picoseconds") || str_eq(s, "picosec") || str_eq(s, "psec") || str_eq(s, "psecs") {
            Some(TimeUnit::Picosecond)
        } else if str_eq(s, "min") || str_eq(s, "minute") || str_eq(s, "minutes") {
            Some(TimeUnit::Minute)
        } else if str_eq(s, "h") || str_eq(s, "hour") || str_eq(s, "hours") {
            Some(TimeUnit::Hour)
        } else if str_eq(s, "d") || str_eq(s, "day") || str_eq(s, "days") {
            Some(TimeUnit::Day)
        } else if str_eq(s, "w") || str_eq(s, "week") || str_eq(s, "weeks") {
            Some(TimeUnit::Week)
        } else if str_eq(s, "mo") || str_eq(s, "month") || str_eq(s, "months") {
            Some(TimeUnit::Month)
        } else if str_eq(s, "y") || str_eq(s, "year") || str_eq(s, "years") {
            Some(TimeUnit::Year)
        } else {
            None
        }
    }

    /// The ratio of this unit to the kind's base unit, as the quotient of
    /// the catalog's integer pair at the working precision.
    pub open spec fn spec_ratio(self) -> FloatModel {
        match self {
            TimeUnit::Second => div_model(int_model(1), int_model(1)),
            TimeUnit::Millisecond => div_model(int_model(1), int_model(1000)),
            TimeUnit::Microsecond => div_model(int_model(1), int_model(1000000)),
            TimeUnit::Nanosecond => div_model(int_model(1), int_model(1000000000)),
            TimeUnit::Picosecond => div_model(int_model(1), int_model(1000000000000)),
            TimeUnit::Minute => div_model(int_model(60), int_model(1)),
            TimeUnit::Hour => div_model(int_model(3600), int_model(1)),
            TimeUnit::Day => div_model(int_model(86400), int_model(1)),
            TimeUnit::Week => div_model(int_model(604800), int_model(1)),
            TimeUnit::Month => div_model(int_model(2629800), int_model(1)),
            TimeUnit::Year => div_model(int_model(31557600), int_model(1)),
        }
    }

    pub fn ratio(&self) -> (r: Float)
        ensures
            r@ == self.spec_ratio(),
    {
        match *self {
            TimeUnit::Second => Float::from_i64(1).div(&Float::from_i64(1)),
            TimeUnit::Millisecond => Float::from_i64(1).div(&Float::from_i64(1000)),
            TimeUnit::Microsecond => Float::from_i64(1).div(&Float::from_i64(1000000)),
            TimeUnit::Nanosecond => Float::from_i64(1).div(&Float::from_i64(1000000000)),
            TimeUnit::Picosecond => Float::from_i64(1).div(&Float::from_i64(1000000000000)),
            TimeUnit::Minute => Float::from_i64(60).div(&Float::from_i64(1)),
            TimeUnit::Hour => Float::from_i64(3600).div(&Float::from_i64(1)),
            TimeUnit::Day => Float::from_i64(86400).div(&Float::from_i64(1)),
            TimeUnit::Week => Float::from_i64(604800).div(&Float::from_i64(1)),
            TimeUnit::Month => Float::from_i64(2629800).div(&Float::from_i64(1)),
            TimeUnit::Year => Float::from_i64(31557600).div(&Float::from_i64(1)),
        }
    }

    /// The default short symbol of the unit.
    pub open spec fn spec_shorthand(self) -> Seq<char> {
        match self {
            TimeUnit::Second => "s"@,
            TimeUnit::Millisecond => "ms"@,
            TimeUnit::Microsecond => "us"@,
            TimeUnit::Nanosecond => "ns"@,
            TimeUnit::Picosecond => "ps"@,
            TimeUnit::Minute => "min"@,
            TimeUnit::Hour => "h"@,
            TimeUnit::Day => "d"@,
            TimeUnit::Week => "w"@,
            TimeUnit::Month => "mo"@,
            TimeUnit::Year => "y"@,
        }
    }

    pub fn shorthand(&self) -> (r: String)
        ensures
            r@ == self.spec_shorthand(),
    {
        match *self {
            TimeUnit::Second => string_from("s"),
            TimeUnit::Millisecond => string_from("ms"),
            TimeUnit::Microsecond => string_from("us"),
            TimeUnit::Nanosecond => string_from("ns"),
            TimeUnit::Picosecond => string_from("ps"),
            TimeUnit::Minute => string_from("min"),
            TimeUnit::Hour => string_from("h"),
            TimeUnit::Day => string_from("d"),
            TimeUnit::Week => string_from("w"),
            TimeUnit::Month => string_from("mo"),
            TimeUnit::Year => string_from("y"),
        }
    }
}

#[derive(Debug, Clone, Copy, PartialEq, Eq, Structural)]
pub enum MassUnit {
    Gram,
    Kilogram,
    Tonne,
    Milligram,
    Microgram,
    Nanogram,
    Picogram,
    Ounce,
    Pound,
    Stone,
    Ton,
}

impl MassUnit {
    /// The unit a piece of text names, by symbol, long name or alias.
    pub open spec fn spec_from_text(s: Seq<char>) -> Option<MassUnit> {
        if s == "g"@ || s == "gram"@ || s == "grams"@ {
            Some(MassUnit::Gram)
        } else if s == "kg"@ || s == "kilogram"@ || s == "kilograms"@ {
            Some(MassUnit::Kilogram)
        } else if s == "t"@ || s == "tonne"@ || s == "tonnes"@ {
            Some(MassUnit::Tonne)
        } else if s == "mg"@ || s == "milligram"@ || s == "milligrams"@ {
            Some(MassUnit::Milligram)
        } else if s == "ug"@ || s == "microgram"@ || s == "micrograms"@ {
            Some(MassUnit::Microgram)
        } else if s == "ng"@ || s == "nanogram"@ || s == "nanograms"@ {
            Some(MassUnit::Nanogram)
        } else if s == "pg"@ || s == "picogram"@ || s == "picograms"@ {
            Some(MassUnit::Picogram)
        } else if s == "oz"@ || s == "ounce"@ || s == "ounces"@ {
            Some(MassUnit::Ounce)
        } else if s == "lb"@ || s == "pound"@ || s == "pounds"@ {
            Some(MassUnit::Pound)
        } else if s == "st"@ || s == "stone"@ || s == "stones"@ {
            Some(MassUnit::Stone)
        } else if s == "tn"@ || s == "ton"@ || s == "tons"@ {
            Some(MassUnit::Ton)
        } else {
            None
        }
    }

    pub fn from_text(s: &str) -> (r: Option<MassUnit>)
        ensures
            r == Self::spec_from_text(s@),
    {
        if str_eq(s, "g") || str_eq(s, "gram") || str_eq(s, "grams") {
            Some(MassUnit::Gram)
        } else if str_eq(s, "kg") || str_eq(s, "kilogram") || str_eq(s, "kilograms") {
            Some(MassUnit::Kilogram)
        } else if str_eq(s, "t") || str_eq(s, "tonne") || str_eq(s, "tonnes") {
            Some(MassUnit::Tonne)
        } else if str_eq(s, "mg") || str_eq(s, "milligram") || str_eq(s, "milligrams") {
            Some(MassUnit::Milligram)
        } else if str_eq(s, "ug") || str_eq(s, "microgram") || str_eq(s, "micrograms") {
            Some(MassUnit::Microgram)
        } else if str_eq(s, "ng") || str_eq(s, "nanogram") || str_eq(s, "nanograms") {
            Some(MassUnit::Nanogram)
        } else if str_eq(s, "pg") || str_eq(s, "picogram") || str_eq(s, "picograms") {
            Some(MassUnit::Picogram)
        } else if str_eq(s, "oz") || str_eq(s, "ounce") || str_eq(s, "ounces") {
            Some(MassUnit::Ounce)
        } else if str_eq(s, "lb") || str_eq(s, "pound") || str_eq(s, "pounds") {
            Some(MassUnit::Pound)
        } else if str_eq(s, "st") || str_eq(s, "stone") || str_eq(s, "stones") {
            Some(MassUnit::Stone)
        } else if str_eq(s, "tn") || str_eq(s, "ton") || str_eq(s, "tons") {
            Some(MassUnit::Ton)
        } else {
            None
        }
    }

    /// The ratio of this unit to the kind's base unit, as the quotient of
    /// the catalog's integer pair at the working precision.
    pub open spec fn spec_ratio(self) -> FloatModel {
        match self {
            MassUnit::Gram => div_model(int_model(1), int_model(1)),
            MassUnit::Kilogram => div_model(int_model(1000), int_model(1)),
            MassUnit::Tonne => div_model(int_model(1000000), int_model(1)),
            MassUnit::Milligram => div_model(int_model(1), int_model(1000)),
            MassUnit::Microgram => div_model(int_model(1), int_model(1000000)),
            MassUnit::Nanogram => div_model(int_model(1), int_model(1000000000)),
            MassUnit::Picogram => div_model(int_model(1), int_model(1000000000000)),
            MassUnit::Ounce => div_model(int_model(28349523125), int_model(1000000000)),
            MassUnit::Pound => div_model(int_model(45359237), int_model(100000)),
            MassUnit::Stone => div_model(int_model(635029318), int_model(100000)),
            MassUnit::Ton => div_model(int_model(90718474000), int_model(100000)),
        }
    }

    pub fn ratio(&self) -> (r: Float)
        ensures
            r@ == self.spec_ratio(),
    {
        match *self {
            MassUnit::Gram => Float::from_i64(1).div(&Float::from_i64(1)),
            MassUnit::Kilogram => Float::from_i64(1000).div(&Float::from_i64(1)),
            MassUnit::Tonne => Float::from_i64(1000000).div(&Float::from_i64(1)),
            MassUnit::Milligram => Float::from_i64(1).div(&Float::from_i64(1000)),
            MassUnit::Microgram => Float::from_i64(1).div(&Float::from_i64(1000000)),
            MassUnit::Nanogram => Float::from_i64(1).div(&Float::from_i64(1000000000)),
            MassUnit::Picogram => Float::from_i64(1).div(&Float::from_i64(1000000000000)),
            MassUnit::Ounce => Float::from_i64(28349523125).div(&Float::from_i64(1000000000)),
            MassUnit::Pound => Float::from_i64(45359237).div(&Float::from_i64(100000)),
            MassUnit::Stone => Float::from_i64(635029318).div(&Float::from_i64(100000)),
            MassUnit::Ton => Float::from_i64(90718474000).div(&Float::from_i64(100000)),
        }
    }

    /// The default short symbol of the unit.
    pub open spec fn spec_shorthand(self) -> Seq<char> {
        match self {
            MassUnit::Gram => "g"@,
            MassUnit::Kilogram => "kg"@,
            MassUnit::Tonne => "t"@,
            MassUnit::Milligram => "mg"@,
            MassUnit::Microgram => "ug"@,
            MassUnit::Nanogram => "ng"@,
            MassUnit::Picogram => "pg"@,
            MassUnit::Ounce => "oz"@,
            MassUnit::Pound => "lb"@,
            MassUnit::Stone => "st"@,
            MassUnit::Ton => "tn"@,
        }
    }

    pub fn shorthand(&self) -> (r: String)
        ensures
            r@ == self.spec_shorthand(),
    {
        match *self {
            MassUnit::Gram => string_from("g"),
            MassUnit::Kilogram => string_from("kg"),
            MassUnit::Tonne => string_from("t"),
            MassUnit::Milligram => string_from("mg"),
            MassUnit::Microgram => string_from("ug"),
            MassUnit::Nanogram => string_from("ng"),
            MassUnit::Picogram => string_from("pg"),
            MassUnit::Ounce => string_from("oz"),
            MassUnit::Pound => string_from("lb"),
            MassUnit::Stone => string_from("st"),
            MassUnit::Ton => string_from("tn"),
        }
    }
}

#[derive(Debug, Clone, Copy, PartialEq, Eq, Structural)]
pub enum AmountUnit {
    Mole,
    Kilomole,
    Megamole,
    Gigamole,
    Teramole,
    Millimole,
    Micromole,
    Nanomole,
    Picomole,
    PoundMole,
}

impl AmountUnit {
    /// The unit a piece of text names, by symbol, long name or alias.
    pub open spec fn spec_from_text(s: Seq<char>) -> Option<AmountUnit> {
        if s == "mol"@ || s == "mole"@ || s == "moles"@ || s == "gmol"@ || s == "gmole"@ || s == "gmoles"@ {
            Some(AmountUnit::Mole)
        } else if s == "kmol"@ || s == "kilomole"@ || s == "kilomoles"@ || s == "kgmol"@ || s == "kgmole"@ || s == "kgmoles"@ {
            Some(AmountUnit::Kilomole)
        } else if s == "Mmol"@ || s == "megamole"@ || s == "megamoles"@ || s == "Mgmol"@ || s == "Mgmole"@ || s == "Mgmoles"@ {
            Some(AmountUnit::Megamole)
        } else if s == "Gmol"@ || s == "gigamole"@ || s == "gigamoles"@ || s == "Ggmol"@ || s == "Ggmole"@ || s == "Ggmoles"@ {
            Some(AmountUnit::Gigamole)
        } else if s == "Tmol"@ || s == "teramole"@ || s == "teramoles"@ || s == "Tgmol"@ || s == "Tgmole"@ || s == "Tgmoles"@ {
            Some(AmountUnit::Teramole)
        } else if s == "mmol"@ || s == "millimole"@ || s == "millimoles"@ || s == "mgmol"@ || s == "mgmole"@ || s == "mgmoles"@ {
            Some(AmountUnit::Millimole)
        } else if s == "umol"@ || s == "micromole"@ || s == "micromoles"@ || s == "ugmol"@ || s == "ugmole"@ || s == "ugmoles"@ {
            Some(AmountUnit::Micromole)
        } else if s == "nmol"@ || s == "nanomole"@ || s == "nanomoles"@ || s == "ngmol"@ || s == "ngmole"@ || s == "ngmoles"@ {
            Some(AmountUnit::Nanomole)
        } else if s == "pmol"@ || s == "picomole"@ || s == "picomoles"@ || s == "pgmol"@ || s == "pgmole"@ || s == "pgmoles"@ {
            Some(AmountUnit::Picomole)
        } else if s == "lbmol"@ || s == "pound-mole"@ || s == "pound-moles"@ {
            Some(AmountUnit::PoundMole)
        } else {
            None
        }
    }

    pub fn from_text(s: &str) -> (r: Option<AmountUnit>)
        ensures
            r == Self::spec_from_text(s@),
    {
        if str_eq(s, "mol") || str_eq(s, "mole") || str_eq(s, "moles") || str_eq(s, "gmol") || str_eq(s, "gmole") || str_eq(s, "gmoles") {
            Some(AmountUnit::Mole)
        } else if str_eq(s, "kmol") || str_eq(s, "kilomole") || str_eq(s, "kilomoles") || str_eq(s, "kgmol") || str_eq(s, "kgmole") || str_eq(s, "kgmoles") {
            Some(AmountUnit::Kilomole)
        } else if str_eq(s, "Mmol") || str_eq(s, "megamole") || str_eq(s, "megamoles") || str_eq(s, "Mgmol") || str_eq(s, "Mgmole") || str_eq(s, "Mgmoles") {
            Some(AmountUnit::Megamole)
        } else if str_eq(s, "Gmol") || str_eq(s, "gigamole") || str_eq(s, "gigamoles") || str_eq(s, "Ggmol") || str_eq(s, "Ggmole") || str_eq(s, "Ggmoles") {
            Some(AmountUnit::Gigamole)
        } else if str_eq(s, "Tmol") || str_eq(s, "teramole") || str_eq(s, "teramoles") || str_eq(s, "Tgmol") || str_eq(s, "Tgmole") || str_eq(s, "Tgmoles") {
            Some(AmountUnit::Teramole)
        } else if str_eq(s, "mmol") || str_eq(s, "millimole") || str_eq(s, "millimoles") || str_eq(s, "mgmol") || str_eq(s, "mgmole") || str_eq(s, "mgmoles") {
            Some(AmountUnit::Millimole)
        } else if str_eq(s, "umol") || str_eq(s, "micromole") || str_eq(s, "micromoles") || str_eq(s, "ugmol") || str_eq(s, "ugmole") || str_eq(s, "ugmoles") {
            Some(AmountUnit::Micromole)
        } else if str_eq(s, "nmol") || str_eq(s, "nanomole") || str_eq(s, "nanomoles") || str_eq(s, "ngmol") || str_eq(s, "ngmole") || str_eq(s, "ngmoles") {
            Some(AmountUnit::Nanomole)
        } else if str_eq(s, "pmol") || str_eq(s, "picomole") || str_eq(s, "picomoles") || str_eq(s, "pgmol") || str_eq(s, "pgmole") || str_eq(s, "pgmoles") {
            Some(AmountUnit::Picomole)
        } else if str_eq(s, "lbmol") || str_eq(s, "pound-mole") || str_eq(s, "pound-moles") {
            Some(AmountUnit::PoundMole)
        } else {
            None
        }
    }

    /// The ratio of this unit to the kind's base unit, as the quotient of
    /// the catalog's integer pair at the working precision.
    pub open spec fn spec_ratio(self) -> FloatModel {
        match self {
            AmountUnit::Mole => div_model(int_model(1), int_model(1)),
            AmountUnit::Kilomole => div_model(int_model(1000), int_model(1)),
            AmountUnit::Megamole => div_model(int_model(1000000), int_model(1)),
            AmountUnit::Gigamole => div_model(int_model(1000000000), int_model(1)),
            AmountUnit::Teramole => div_model(int_model(1000000000000), int_model(1)),
            AmountUnit::Millimole => div_model(int_model(1), int_model(1000)),
            AmountUnit::Micromole => div_model(int_model(1), int_model(1000000)),
            AmountUnit::Nanomole => div_model(int_model(1), int_model(1000000000)),
            AmountUnit::Picomole => div_model(int_model(1), int_model(1000000000000)),
            AmountUnit::PoundMole => div_model(int_model(45359237), int_model(100000000)),
        }
    }

    pub fn ratio(&self) -> (r: Float)
        ensures
            r@ == self.spec_ratio(),
    {
        match *self {
            AmountUnit::Mole => Float::from_i64(1).div(&Float::from_i64(1)),
            AmountUnit::Kilomole => Float::from_i64(1000).div(&Float::from_i64(1)),
            AmountUnit::Megamole => Float::from_i64(1000000).div(&Float::from_i64(1)),
            AmountUnit::Gigamole => Float::from_i64(1000000000).div(&Float::from_i64(1)),
            AmountUnit::Teramole => Float::from_i64(1000000000000).div(&Float::from_i64(1)),
            AmountUnit::Millimole => Float::from_i64(1).div(&Float::from_i64(1000)),
            AmountUnit::Micromole => Float::from_i64(1).div(&Float::from_i64(1000000)),
            AmountUnit::Nanomole => Float::from_i64(1).div(&Float::from_i64(1000000000)),
            AmountUnit::Picomole => Float::from_i64(1).div(&Float::from_i64(1000000000000)),
            AmountUnit::PoundMole => Float::from_i64(45359237).div(&Float::from_i64(100000000)),
        }
    }

    /// The default short symbol of the unit.
    pub open spec fn spec_shorthand(self) -> Seq<char> {
        match self {
            AmountUnit::Mole => "mol"@,
            AmountUnit::Kilomole => "kmol"@,
            AmountUnit::Megamole => "Mmol"@,
            AmountUnit::Gigamole => "Gmol"@,
            AmountUnit::Teramole => "Tmol"@,
            AmountUnit::Millimole => "mmol"@,
            AmountUnit::Micromole => "umol"@,
            AmountUnit::Nanomole => "nmol"@,
            AmountUnit::Picomole => "pmol"@,
            AmountUnit::PoundMole => "lbmol"@,
        }
    }

    pub fn shorthand(&self) -> (r: String)
        ensures
            r@ == self.spec_shorthand(),
    {
        match *self {
            AmountUnit::Mole => string_from("mol"),
            AmountUnit::Kilomole => string_from("kmol"),
            AmountUnit::Megamole => string_from("Mmol"),
            AmountUnit::Gigamole => string_from("Gmol"),
            AmountUnit::Teramole => string_from("Tmol"),
            AmountUnit::Millimole => string_from("mmol"),
            AmountUnit::Micromole => string_from("umol"),
            AmountUnit::Nanomole => string_from("nmol"),
            AmountUnit::Picomole => string_from("pmol"),
            AmountUnit::PoundMole => string_from("lbmol"),
        }
    }
}

#[derive(Debug, Clone, Copy, PartialEq, Eq, Structural)]
pub enum AngleUnit {
    Radian,
    Degree,
    Revolution,
}

impl AngleUnit {
    /// The unit a piece of text names, by symbol, long name or alias.
    pub open spec fn spec_from_text(s: Seq<char>) -> Option<AngleUnit> {
        if s == "rad"@ || s == "radian"@ || s == "radians"@ || s == "rads"@ {
            Some(AngleUnit::Radian)
        } else if s == "deg"@ || s == "degree"@ || s == "degs"@ || s == "degrees"@ {
            Some(AngleUnit::Degree)
        } else if s == "rev"@ || s == "revolution"@ || s == "revs"@ || s == "revolutions"@ {
            Some(AngleUnit::Revolution)
        } else {
            None
        }
    }

    pub fn from_text(s: &str) -> (r: Option<AngleUnit>)
        ensures
            r == Self::spec_from_text(s@),
    {
        if str_eq(s, "rad") || str_eq(s, "radian") || str_eq(s, "radians") || str_eq(s, "rads") {
            Some(AngleUnit::Radian)
        } else if str_eq(s, "deg") || str_eq(s, "degree") || str_eq(s, "degs") || str_eq(s, "degrees") {
            Some(AngleUnit::Degree)
        } else if str_eq(s, "rev") || str_eq(s, "revolution") || str_eq(s, "revs") || str_eq(s, "revolutions") {
            Some(AngleUnit::Revolution)
        } else {
            None
        }
    }

    /// The ratio of this unit to the kind's base unit, as the quotient of
    /// the catalog's integer pair at the working precision.
    pub open spec fn spec_ratio(self) -> FloatModel {
        match self {
            AngleUnit::Radian => div_model(int_model(1), int_model(1)),
            AngleUnit::Degree => div_model(int_model(1783366216531), int_model(102179357533440)),
            AngleUnit::Revolution => div_model(int_model(1783366216531), int_model(567663097408)),
        }
    }

    pub fn ratio(&self) -> (r: Float)
        ensures
            r@ == self.spec_ratio(),
    {
        match *self {
            AngleUnit::Radian => Float::from_i64(1).div(&Float::from_i64(1)),
            AngleUnit::Degree => Float::from_i64(1783366216531).div(&Float::from_i64(102179357533440)),
            AngleUnit::Revolution => Float::from_i64(1783366216531).div(&Float::from_i64(567663097408)),
        }
    }

    /// The default short symbol of the unit.
    pub open spec fn spec_shorthand(self) -> Seq<char> {
        match self {
            AngleUnit::Radian => "rad"@,
            AngleUnit::Degree => "deg"@,
            AngleUnit::Revolution => "rev"@,
        }
    }

    pub fn shorthand(&self) -> (r: String)
        ensures
            r@ == self.spec_shorthand(),
    {
        match *self {
            AngleUnit::Radian => string_from("rad"),
            AngleUnit::Degree => string_from("deg"),
            AngleUnit::Revolution => string_from("rev"),
        }
    }
}

} // verus!
