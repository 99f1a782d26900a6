use vfd_dashboard::cycle::paint_cells;
use vfd_dashboard::dashboard::Dashboard;
use vfd_dashboard::entity::Entity;
use vfd_dashboard::error::RequestError;
use vfd_dashboard::text::{bytes_equal, text_equals};
use vfd_dashboard::url::UrlTooLong;

const BASE: &str = "https://example.org/api/states/";

fn catalog() -> Vec<Entity> {
    vec![
        Entity { display_name: "I Temp", display_unit: b"\xB0C", entity_name: "sensor.temperature", position: 0 },
        Entity { display_name: "I Humid", display_unit: b"%", entity_name: "sensor.humidity", position: 16 },
        Entity { display_name: "VOC", display_unit: b"", entity_name: "sensor.voc", position: 32 },
    ]
}

fn failure() -> Result<&'static str, RequestError> {
    Err(RequestError::RequestErr(reqwless::Error::Dns))
}

fn paint(screen: &mut [u8], position: u8, cells: &[u8]) {
    for (offset, cell) in cells.iter().enumerate() {
        if let Some(place) = screen.get_mut(position as usize + offset) {
            *place = *cell;
        }
    }
}

fn run_cycle(
    dashboard: &mut Dashboard,
    screen: &mut Vec<u8>,
    outcomes: &[Result<&str, RequestError>],
) {
    assert!(dashboard.render_cycle(outcomes, screen));
}

#[test]
fn new_dashboard_remembers_nothing() {
    let entities = catalog();
    let dashboard = Dashboard::new(&entities, 100);
    assert_eq!(dashboard.entity_count(), 3);
    assert_eq!(dashboard.brightness(), 100);
    for index in 0..3 {
        assert_eq!(dashboard.previous_length(index), Some(0));
    }
    assert_eq!(dashboard.previous_length(3), None);
    assert_eq!(dashboard.entity(1).unwrap().display_name, "I Humid");
    assert!(dashboard.entity(3).is_none());
}

#[test]
fn empty_catalog_has_no_fields() {
    let entities: Vec<Entity> = Vec::new();
    let mut dashboard = Dashboard::new(&entities, 0);
    assert_eq!(dashboard.entity_count(), 0);
    let mut cells: Vec<u8> = Vec::new();
    assert_eq!(dashboard.render_entity(0, &Ok("1"), &mut cells), None);
    assert!(cells.is_empty());
    assert_eq!(dashboard.first_overlong_url(BASE), None);
}

#[test]
fn rendering_an_entity_remembers_its_length() {
    let entities = catalog();
    let mut dashboard = Dashboard::new(&entities, 100);
    let mut cells: Vec<u8> = Vec::new();
    assert_eq!(dashboard.render_entity(1, &Ok("45.5"), &mut cells), Some(5));
    assert_eq!(cells, b"I Humid: 45.5%".to_vec());
    assert_eq!(dashboard.previous_length(0), Some(0));
    assert_eq!(dashboard.previous_length(1), Some(5));
    assert_eq!(dashboard.previous_length(2), Some(0));

    let mut cells: Vec<u8> = Vec::new();
    assert_eq!(dashboard.render_entity(1, &Ok("9"), &mut cells), Some(2));
    assert_eq!(cells, b"I Humid: 9%   ".to_vec());
    assert_eq!(dashboard.previous_length(1), Some(2));
}

#[test]
fn index_beyond_catalog_changes_nothing() {
    let entities = catalog();
    let mut dashboard = Dashboard::new(&entities, 100);
    let mut cells: Vec<u8> = b"kept".to_vec();
    assert_eq!(dashboard.render_entity(3, &Ok("1"), &mut cells), None);
    assert_eq!(cells, b"kept".to_vec());
    for index in 0..3 {
        assert_eq!(dashboard.previous_length(index), Some(0));
    }
    assert!(dashboard.entity_url(BASE, 3).is_none());
}

#[test]
fn failed_fetch_leaves_neighbouring_fields_correct() {
    let entities = catalog();
    let mut dashboard = Dashboard::new(&entities, 100);
    let mut screen = vec![b' '; 80];
    run_cycle(&mut dashboard, &mut screen, &[Ok("21.4"), failure(), Ok("120")]);
    assert_eq!(&screen[0..16], b"I Temp: 21.4\xB0C  ");
    assert_eq!(&screen[16..32], b"I Humid: ERR    ");
    assert_eq!(&screen[32..40], b"VOC: 120");

    let mut all_fine = Dashboard::new(&entities, 100);
    let mut reference = vec![b' '; 80];
    run_cycle(&mut all_fine, &mut reference, &[Ok("21.4"), Ok("45"), Ok("120")]);
    assert_eq!(&screen[0..16], &reference[0..16]);
    assert_eq!(&screen[32..80], &reference[32..80]);
}

#[test]
fn failure_after_success_erases_only_its_own_field() {
    let entities = catalog();
    let mut dashboard = Dashboard::new(&entities, 100);
    let mut screen = vec![b' '; 80];
    run_cycle(&mut dashboard, &mut screen, &[Ok("21.4"), Ok("45.25"), Ok("120")]);
    assert_eq!(&screen[16..32], b"I Humid: 45.25% ");
    run_cycle(&mut dashboard, &mut screen, &[Ok("21.4"), failure(), Ok("120")]);
    assert_eq!(&screen[0..16], b"I Temp: 21.4\xB0C  ");
    assert_eq!(&screen[16..32], b"I Humid: ERR    ");
    assert_eq!(&screen[32..40], b"VOC: 120");
    assert_eq!(dashboard.previous_length(1), Some(3));
}

#[test]
fn same_responses_twice_give_the_same_screen() {
    let entities = catalog();
    let mut dashboard = Dashboard::new(&entities, 100);
    let mut screen = vec![b' '; 80];
    run_cycle(&mut dashboard, &mut screen, &[Ok("19.75"), Ok("unavailable"), failure()]);
    run_cycle(&mut dashboard, &mut screen, &[Ok("2.5"), Ok("45"), Ok("7")]);
    let once = screen.clone();
    let lengths: Vec<Option<usize>> = (0..3).map(|index| dashboard.previous_length(index)).collect();
    run_cycle(&mut dashboard, &mut screen, &[Ok("2.5"), Ok("45"), Ok("7")]);
    assert_eq!(screen, once);
    let again: Vec<Option<usize>> = (0..3).map(|index| dashboard.previous_length(index)).collect();
    assert_eq!(again, lengths);
    assert_eq!(&screen[0..16], b"I Temp: 2.5\xB0C   ");
}

#[test]
fn luminance_update_goes_through_the_dashboard() {
    let entities = catalog();
    let mut dashboard = Dashboard::new(&entities, 100);
    assert_eq!(dashboard.update_luminance(&failure()), None);
    assert_eq!(dashboard.brightness(), 100);
    assert_eq!(dashboard.update_luminance(&Ok("64.0")), Some(64));
    assert_eq!(dashboard.brightness(), 64);
    assert_eq!(dashboard.update_luminance(&Ok("dim")), None);
    assert_eq!(dashboard.brightness(), 64);
    assert_eq!(dashboard.previous_length(0), Some(0));
}

#[test]
fn entity_urls_are_built_from_the_catalog() {
    let entities = catalog();
    let dashboard = Dashboard::new(&entities, 100);
    let url = dashboard.entity_url(BASE, 2).unwrap().unwrap();
    assert_eq!(url.as_str(), "https://example.org/api/states/sensor.voc");
    assert_eq!(dashboard.first_overlong_url(BASE), None);
}

#[test]
fn overlong_url_is_found_at_startup() {
    let entities = catalog();
    let dashboard = Dashboard::new(&entities, 100);
    let base = "b".repeat(500);
    assert_eq!(dashboard.first_overlong_url(&base), Some(0));
    assert_eq!(dashboard.entity_url(&base, 0).unwrap().err(), Some(UrlTooLong));
    assert!(dashboard.entity_url(&base, 2).unwrap().is_ok());
    let base = "b".repeat(497);
    assert_eq!(dashboard.first_overlong_url(&base), Some(0));
    let base = "b".repeat(494);
    assert_eq!(dashboard.first_overlong_url(&base), None);
    let base = "b".repeat(513);
    assert_eq!(dashboard.first_overlong_url(&base), Some(0));
}

#[test]
fn texts_are_compared_by_content() {
    assert!(text_equals("unavailable", "unavailable"));
    assert!(!text_equals("unavailable", "unavailablE"));
    assert!(!text_equals("unavailable", "unavailable "));
    assert!(text_equals("", ""));
    assert!(text_equals("°C", "\u{b0}C"));
    assert!(bytes_equal(b"\xB0C", &[0xB0, 0x43]));
    assert!(!bytes_equal(b"ab", b"abc"));
    assert!(!bytes_equal(b"ab", b"ac"));
}

#[test]
fn cycle_agrees_with_rendering_entity_by_entity() {
    let entities = catalog();
    let outcomes: Vec<Result<&str, RequestError>> = vec![Ok("21.4"), failure(), Ok("unavailable")];

    let mut whole = Dashboard::new(&entities, 100);
    let mut screen = vec![b'#'; 80];
    assert!(whole.render_cycle(&outcomes, &mut screen));

    let mut stepwise = Dashboard::new(&entities, 100);
    let mut expected = vec![b'#'; 80];
    for (index, outcome) in outcomes.iter().enumerate() {
        let entity = stepwise.entity(index).unwrap();
        let mut cells: Vec<u8> = Vec::new();
        assert!(stepwise.render_entity(index, outcome, &mut cells).is_some());
        paint(&mut expected, entity.position, &cells);
    }
    assert_eq!(screen, expected);
    for index in 0..3 {
        assert_eq!(whole.previous_length(index), stepwise.previous_length(index));
    }
    assert_eq!(&screen[0..16], b"I Temp: 21.4\xB0C##");
    assert_eq!(&screen[32..40], b"VOC: ?##");
}

#[test]
fn cycle_needs_one_outcome_for_each_entity() {
    let entities = catalog();
    let mut dashboard = Dashboard::new(&entities, 100);
    let mut screen = vec![b' '; 80];
    assert!(!dashboard.render_cycle(&[Ok("21.4"), Ok("45")], &mut screen));
    assert_eq!(screen, vec![b' '; 80]);
    assert!(!dashboard.render_cycle(&[Ok("1"), Ok("2"), Ok("3"), Ok("4")], &mut screen));
    assert_eq!(screen, vec![b' '; 80]);
    for index in 0..3 {
        assert_eq!(dashboard.previous_length(index), Some(0));
    }
}

#[test]
fn painting_overwrites_in_place_and_drops_what_does_not_fit() {
    let mut screen = b"0123456789".to_vec();
    paint_cells(&mut screen, 3, b"abc");
    assert_eq!(screen, b"012abc6789".to_vec());
    paint_cells(&mut screen, 8, b"wxyz");
    assert_eq!(screen, b"012abc67wx".to_vec());
    paint_cells(&mut screen, 10, b"q");
    assert_eq!(screen, b"012abc67wx".to_vec());
    paint_cells(&mut screen, 200, b"q");
    assert_eq!(screen, b"012abc67wx".to_vec());
    paint_cells(&mut screen, 0, b"");
    assert_eq!(screen, b"012abc67wx".to_vec());
    let mut nothing: Vec<u8> = Vec::new();
    paint_cells(&mut nothing, 0, b"abc");
    assert!(nothing.is_empty());
}
