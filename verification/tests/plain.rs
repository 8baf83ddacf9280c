use tulip_hook::loader::log::{Event, ListenerResult, Mod};
use tulip_hook::ui::notification::NotificationIcon;
use tulip_hook::ui::text_input::CommonFilter;
use tulip_hook::utils::node_ids::GEODE_ID_PRIORITY;

#[test]
fn events_propagate() {
    assert_eq!(Event::post_from_mod(None), ListenerResult::Propagate);
    assert_eq!(Event::post_from_mod(Some(Mod)), ListenerResult::Propagate);
    assert_eq!(Event { sender: Some(Mod) }.post(), ListenerResult::Propagate);
    assert_ne!(ListenerResult::Propagate, ListenerResult::Stop);
}

#[test]
fn a_filter_stands_for_itself() {
    for filter in [
        CommonFilter::Uint,
        CommonFilter::Int,
        CommonFilter::Float,
        CommonFilter::ID,
        CommonFilter::Name,
        CommonFilter::Any,
        CommonFilter::Hex,
        CommonFilter::Base64Normal,
        CommonFilter::Base64URL,
    ] {
        assert_eq!(CommonFilter::get_common_filter_allowed_chars(filter), filter);
    }
}

#[test]
fn plain_values() {
    assert_eq!(GEODE_ID_PRIORITY, 0x100000);
    assert_ne!(NotificationIcon::NoIcon, NotificationIcon::Error);
}
