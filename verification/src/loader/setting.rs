use vstd::prelude::*;

verus! {

/// The widget that shows a setting.
pub trait SettingNode {

}

/// The value of a setting.
pub trait SettingValue {

}

pub struct JsonMaybeObject;

pub struct JsonMaybeValue;

/// A setting that is on or off.
pub struct BoolSetting {
    name: Option<String>,
    description: Option<String>,
    default_value: bool,
}

/// A setting that holds a whole number between `min` and `max`.
pub struct IntSetting {
    name: Option<String>,
    description: Option<String>,
    min: i64,
    max: i64,
    controls: IntSettingControls,
}

/// The controls that the widget of an `IntSetting` offers.
pub struct IntSettingControls {
    arrows: bool,
    big_arrows: bool,
    arrow_step: usize,
    big_arrow_step: usize,
    slider: bool,
    slider_step: Option<u64>,
    input: bool,
}

} // verus!
