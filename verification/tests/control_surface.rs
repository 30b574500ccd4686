use dynlog::filter::BaseFilter;
use dynlog::logging_api::{ControlError, DynamicLogHandler};
use std::sync::{Arc, Mutex};
use tracing_subscriber::reload::{Handle, Layer};
use tracing_subscriber::{EnvFilter, Registry};

const NO_LEVEL: &str = "error parsing level filter: expected one of \"off\", \"error\", \"warn\", \"info\", \"debug\", \"trace\", or a number 0-5";
const GONE: &str = "subscriber no longer exists";

struct Fixture {
    layer: Option<Layer<EnvFilter, Registry>>,
    handle: Handle<EnvFilter, Registry>,
    handler: DynamicLogHandler,
}

fn fixture_on(base: BaseFilter) -> Fixture {
    let (layer, handler) = DynamicLogHandler::new(base);
    let handle = layer.handle();
    Fixture { layer: Some(layer), handle, handler }
}

fn fixture() -> Fixture {
    fixture_on(BaseFilter::new(None))
}

fn invalid(reason: &str) -> Result<(), ControlError> {
    Err(ControlError::InvalidDirective(String::from(reason)))
}

fn not_reloaded() -> Result<(), ControlError> {
    Err(ControlError::InternalReloadError(String::from(GONE)))
}

fn fixture_of(entries: &[&str]) -> Fixture {
    let mut made = fixture();
    for (at, text) in entries.iter().enumerate() {
        assert_eq!(made.handler.add_directive(text, at as u32, true), Ok(()));
    }
    made
}

fn installed(made: &Fixture) -> Option<String> {
    made.handle.with_current(|filter| filter.to_string()).ok()
}

#[test]
fn new_handler_lists_nothing() {
    let made = fixture();
    assert!(made.handler.list_directives().is_empty());
    assert_eq!(installed(&made), Some(String::from("info")));
}

#[test]
fn add_before_position_two_of_five_lands_at_index_two() {
    let mut made = fixture_of(&["a=info", "b=info", "c=info", "d=info", "e=info"]);
    assert_eq!(made.handler.add_directive("x=debug", 2, true), Ok(()));
    assert_eq!(
        made.handler.list_directives(),
        vec!["a=info", "b=info", "x=debug", "c=info", "d=info", "e=info"]
    );
}

#[test]
fn add_after_position_two_of_five_lands_at_index_three() {
    let mut made = fixture_of(&["a=info", "b=info", "c=info", "d=info", "e=info"]);
    assert_eq!(made.handler.add_directive("x=debug", 2, false), Ok(()));
    assert_eq!(
        made.handler.list_directives(),
        vec!["a=info", "b=info", "c=info", "x=debug", "d=info", "e=info"]
    );
}

#[test]
fn add_to_empty_store_succeeds_only_before_position_zero() {
    let mut made = fixture();
    assert_eq!(
        made.handler.add_directive("x=debug", 1, true),
        Err(ControlError::PositionOutOfRange)
    );
    assert_eq!(
        made.handler.add_directive("x=debug", 0, false),
        Err(ControlError::PositionOutOfRange)
    );
    assert!(made.handler.list_directives().is_empty());
    assert_eq!(made.handler.add_directive("x=debug", 0, true), Ok(()));
    assert_eq!(made.handler.list_directives(), vec!["x=debug"]);
}

#[test]
fn add_after_the_last_entry_appends() {
    let mut made = fixture_of(&["a=info", "b=info"]);
    assert_eq!(made.handler.add_directive("x=debug", 1, false), Ok(()));
    assert_eq!(made.handler.list_directives(), vec!["a=info", "b=info", "x=debug"]);
    assert_eq!(
        made.handler.add_directive("y=debug", 3, false),
        Err(ControlError::PositionOutOfRange)
    );
    assert_eq!(
        made.handler.add_directive("y=debug", u32::MAX, false),
        Err(ControlError::PositionOutOfRange)
    );
    assert_eq!(made.handler.list_directives(), vec!["a=info", "b=info", "x=debug"]);
}

#[test]
fn added_directive_is_listed_in_its_textual_form() {
    let mut made = fixture();
    assert_eq!(made.handler.add_directive("my_crate::module=DEBUG", 0, true), Ok(()));
    assert_eq!(made.handler.add_directive("other", 0, false), Ok(()));
    assert_eq!(made.handler.list_directives(), vec!["my_crate::module=debug", "other=trace"]);
}

#[test]
fn add_then_delete_restores_the_listing() {
    let mut made = fixture_of(&["a=info", "b=info", "c=info"]);
    assert_eq!(made.handler.add_directive("x=debug", 0, false), Ok(()));
    assert_eq!(made.handler.list_directives(), vec!["a=info", "x=debug", "b=info", "c=info"]);
    assert_eq!(made.handler.delete_directive(1), Ok(()));
    assert_eq!(made.handler.list_directives(), vec!["a=info", "b=info", "c=info"]);
}

#[test]
fn malformed_directive_is_refused_and_nothing_changes() {
    let mut made = fixture_of(&["a=info"]);
    assert_eq!(
        made.handler.add_directive("x=bogus", 0, true),
        invalid(NO_LEVEL)
    );
    assert_eq!(
        made.handler.change_directive(0, "x=bogus"),
        invalid(NO_LEVEL)
    );
    assert_eq!(
        made.handler.add_directive(" é=debug", 0, true),
        invalid("invalid filter directive")
    );
    assert_eq!(made.handler.list_directives(), vec!["a=info"]);
    assert_eq!(installed(&made), Some(String::from("a=info,info")));
}

#[test]
fn malformed_directive_is_reported_before_a_bad_position() {
    let mut made = fixture();
    assert_eq!(
        made.handler.add_directive("x=bogus", 7, true),
        invalid(NO_LEVEL)
    );
    assert_eq!(
        made.handler.change_directive(7, "x=bogus"),
        invalid(NO_LEVEL)
    );
}

#[test]
fn change_replaces_one_entry() {
    let mut made = fixture_of(&["a=info", "b=info", "c=info"]);
    assert_eq!(made.handler.change_directive(1, "x=debug"), Ok(()));
    assert_eq!(made.handler.list_directives(), vec!["a=info", "x=debug", "c=info"]);
    assert_eq!(
        made.handler.change_directive(3, "y=debug"),
        Err(ControlError::PositionOutOfRange)
    );
    assert_eq!(made.handler.list_directives(), vec!["a=info", "x=debug", "c=info"]);
}

#[test]
fn delete_removes_one_entry() {
    let mut made = fixture_of(&["a=info", "b=info", "c=info"]);
    assert_eq!(made.handler.delete_directive(0), Ok(()));
    assert_eq!(made.handler.list_directives(), vec!["b=info", "c=info"]);
    assert_eq!(made.handler.delete_directive(2), Err(ControlError::PositionOutOfRange));
    assert_eq!(made.handler.list_directives(), vec!["b=info", "c=info"]);
}

#[test]
fn delete_from_empty_store_is_out_of_range() {
    let mut made = fixture();
    assert_eq!(made.handler.delete_directive(0), Err(ControlError::PositionOutOfRange));
}

#[test]
fn every_edit_installs_the_filter_compiled_from_the_store() {
    let mut made = fixture();
    assert_eq!(made.handler.add_directive("a=debug", 0, true), Ok(()));
    assert_eq!(installed(&made), Some(String::from("a=debug,info")));
    assert_eq!(made.handler.add_directive("b::c=trace", 0, false), Ok(()));
    assert_eq!(installed(&made), Some(String::from("b::c=trace,a=debug,info")));
    assert_eq!(made.handler.change_directive(0, "a=error"), Ok(()));
    assert_eq!(installed(&made), Some(String::from("b::c=trace,a=error,info")));
    assert_eq!(made.handler.delete_directive(1), Ok(()));
    assert_eq!(installed(&made), Some(String::from("a=error,info")));
    assert_eq!(made.handler.delete_directive(0), Ok(()));
    assert_eq!(installed(&made), Some(String::from("info")));
}

#[test]
fn refused_edit_leaves_the_installed_filter() {
    let mut made = fixture_of(&["a=debug"]);
    assert_eq!(made.handler.delete_directive(5), Err(ControlError::PositionOutOfRange));
    assert_eq!(installed(&made), Some(String::from("a=debug,info")));
}

#[test]
fn new_handler_installs_the_base_filter() {
    let made = fixture_on(BaseFilter::new(Some(String::from("warn,x=debug"))));
    assert!(made.handler.list_directives().is_empty());
    assert_eq!(installed(&made), Some(String::from("x=debug,warn")));
    let made = fixture_on(BaseFilter::new(Some(String::from("x=bogus"))));
    assert_eq!(installed(&made), Some(String::from("info")));
}

#[test]
fn base_filter_stays_under_the_directives() {
    let mut made = fixture_on(BaseFilter::new(Some(String::from("warn"))));
    assert_eq!(made.handler.add_directive("a=debug", 0, true), Ok(()));
    assert_eq!(installed(&made), Some(String::from("a=debug,warn")));
    assert_eq!(made.handler.delete_directive(0), Ok(()));
    assert_eq!(installed(&made), Some(String::from("warn")));
}

#[test]
fn failed_reload_is_reported_and_the_edit_stays() {
    let mut made = fixture_of(&["a=info"]);
    made.layer = None;
    assert_eq!(
        made.handler.add_directive("x=debug", 0, true),
        not_reloaded()
    );
    assert_eq!(made.handler.list_directives(), vec!["x=debug", "a=info"]);
    assert_eq!(
        made.handler.change_directive(1, "y=warn"),
        not_reloaded()
    );
    assert_eq!(made.handler.list_directives(), vec!["x=debug", "y=warn"]);
    assert_eq!(made.handler.delete_directive(0), not_reloaded());
    assert_eq!(made.handler.list_directives(), vec!["y=warn"]);
}

#[test]
fn every_error_shows_its_reason() {
    assert_eq!(ControlError::InvalidDirective(String::from(NO_LEVEL)).message(), NO_LEVEL);
    assert_eq!(ControlError::PositionOutOfRange.message(), "Position out of range");
    assert_eq!(ControlError::InternalReloadError(String::from(GONE)).message(), GONE);
}

#[test]
fn additions_at_the_front_in_any_arrival_order_lose_nothing() {
    let made = fixture();
    let shared = Arc::new(Mutex::new(made.handler));
    let callers: Vec<Arc<Mutex<DynamicLogHandler>>> =
        (0..16).map(|_| Arc::clone(&shared)).collect();
    let arrival: [usize; 16] = [7, 0, 12, 3, 15, 9, 1, 14, 5, 10, 2, 13, 8, 4, 11, 6];
    for n in arrival {
        let text = format!("scope{}=debug", n);
        let mut handler = callers[n].lock().unwrap();
        assert_eq!(handler.add_directive(&text, 0, true), Ok(()));
    }
    let mut held = shared.lock().unwrap().list_directives();
    assert_eq!(held.len(), 16);
    assert_eq!(held[0], "scope6=debug");
    held.sort();
    let mut expected: Vec<String> = (0..16).map(|n| format!("scope{}=debug", n)).collect();
    expected.sort();
    assert_eq!(held, expected);
}
