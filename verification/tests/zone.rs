use capitol_backend::zone::Zone;

#[test]
fn test_zone_has_plots() {
    assert!(!Zone::Capitol.has_plots());
    assert!(!Zone::TradeDistrict.has_plots());
    assert!(Zone::GuildDistrict.has_plots());
    assert!(Zone::Urban.has_plots());
    assert!(Zone::Suburban.has_plots());
    assert!(Zone::Rural.has_plots());
    assert!(!Zone::Wilderness.has_plots());
}

#[test]
fn zone_ids_round_trip() {
    for z in Zone::all() {
        assert_eq!(Zone::from_str(z.as_str()), Some(z));
    }
    assert_eq!(Zone::from_str("trade_district"), Some(Zone::TradeDistrict));
    assert_eq!(Zone::from_str("Capitol"), None);
    assert_eq!(Zone::from_str(""), None);
}

#[test]
fn zone_order_and_radii() {
    let all = Zone::all();
    assert_eq!(all.len(), 7);
    for (i, z) in all.iter().enumerate() {
        assert_eq!(z.ring_order() as usize, i);
    }
    for w in all.windows(2) {
        assert_eq!(w[0].radii().1, w[1].radii().0);
    }
    assert_eq!(Zone::Capitol.radii(), (0, 200));
    assert_eq!(Zone::Suburban.radii(), (1600, 2400));
    assert_eq!(Zone::Wilderness.radii(), (3400, 4000));
}

#[test]
fn zone_names() {
    assert_eq!(Zone::Capitol.display_name(), "The Capitol");
    assert_eq!(Zone::Urban.display_name(), "Urban Zone");
    assert_eq!(Zone::GuildDistrict.as_str(), "guild_district");
}
