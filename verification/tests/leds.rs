use orient::leds::{Led, LedId, Leds};
use orient::sector::Sector;

const RING: [LedId; 8] = [
    LedId::Led3,
    LedId::Led5,
    LedId::Led7,
    LedId::Led9,
    LedId::Led10,
    LedId::Led8,
    LedId::Led6,
    LedId::Led4,
];

#[test]
fn a_light_follows_its_commands() {
    let mut led = Led::new();
    assert!(!led.is_on());
    led.on();
    assert!(led.is_on());
    led.on();
    assert!(led.is_on());
    led.off();
    assert!(!led.is_on());
}

#[test]
fn a_new_ring_is_dark() {
    let leds = Leds::new();
    for id in RING {
        assert!(!leds.is_on(id));
    }
}

#[test]
fn switching_one_light_leaves_the_others() {
    for id in RING {
        let mut leds = Leds::new();
        leds.on(id);
        for other in RING {
            assert_eq!(leds.is_on(other), other == id);
        }
        leds.off(id);
        assert_eq!(leds, Leds::new());
    }
}

#[test]
fn lights_are_fields_by_board_label() {
    let mut leds = Leds::new();
    leds.on(LedId::Led3);
    assert!(leds.ld3.lit);
    leds.on(LedId::Led4);
    assert!(leds.ld4.lit);
    leds.on(LedId::Led5);
    assert!(leds.ld5.lit);
    leds.on(LedId::Led6);
    assert!(leds.ld6.lit);
    leds.on(LedId::Led7);
    assert!(leds.ld7.lit);
    leds.on(LedId::Led8);
    assert!(leds.ld8.lit);
    leds.on(LedId::Led9);
    assert!(leds.ld9.lit);
    leds.on(LedId::Led10);
    assert!(leds.ld10.lit);
}

#[test]
fn the_cursor_walks_clockwise_from_north() {
    let mut leds = Leds::new();
    let mut it = leds.iter_mut();
    let mut seen = Vec::new();
    while let Some(id) = it.next() {
        seen.push(id);
    }
    assert_eq!(seen, RING.to_vec());
    assert_eq!(it.next(), None);
    assert_eq!(it.next_back(), None);
}

#[test]
fn the_cursor_walks_counterclockwise_from_the_back() {
    let mut leds = Leds::new();
    let mut it = leds.iter_mut();
    let mut seen = Vec::new();
    while let Some(id) = it.next_back() {
        seen.push(id);
    }
    let mut expected = RING.to_vec();
    expected.reverse();
    assert_eq!(seen, expected);
    assert_eq!(it.next_back(), None);
    assert_eq!(it.next(), None);
}

#[test]
fn the_cursor_counts_what_is_left() {
    let mut leds = Leds::new();
    let mut it = leds.iter_mut();
    assert_eq!(it.len(), 8);
    assert_eq!(it.size_hint(), (8, Some(8)));
    assert_eq!(it.next(), Some(LedId::Led3));
    assert_eq!(it.next_back(), Some(LedId::Led4));
    assert_eq!(it.len(), 6);
    assert_eq!(it.size_hint(), (6, Some(6)));
    assert_eq!(it.next(), Some(LedId::Led5));
    assert_eq!(it.next_back(), Some(LedId::Led6));
    assert_eq!(it.next(), Some(LedId::Led7));
    assert_eq!(it.next_back(), Some(LedId::Led8));
    assert_eq!(it.next(), Some(LedId::Led9));
    assert_eq!(it.len(), 1);
    assert_eq!(it.next_back(), Some(LedId::Led10));
    assert_eq!(it.len(), 0);
    assert_eq!(it.size_hint(), (0, Some(0)));
    assert_eq!(it.next(), None);
    assert_eq!(it.next_back(), None);
    assert_eq!(it.len(), 0);
}

#[test]
fn clear_all_darkens_the_ring() {
    let mut leds = Leds::new();
    for id in RING {
        leds.on(id);
    }
    leds.clear_all();
    assert_eq!(leds, Leds::new());
    leds.clear_all();
    assert_eq!(leds, Leds::new());
}

#[test]
fn set_sector_lights_one_light_and_darkens_seven() {
    let sectors = [
        Sector::N,
        Sector::NE,
        Sector::E,
        Sector::SE,
        Sector::S,
        Sector::SW,
        Sector::W,
        Sector::NW,
    ];
    let mut leds = Leds::new();
    for id in RING {
        leds.on(id);
    }
    for (position, sector) in sectors.into_iter().enumerate() {
        leds.set_sector(sector);
        for (other, id) in RING.into_iter().enumerate() {
            assert_eq!(leds.is_on(id), other == position, "{:?} {:?}", sector, id);
        }
    }
}
