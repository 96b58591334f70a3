use fractal::control::respond;
use fractal::control::Action;
use fractal::control::Inputs;

fn quiet() -> Inputs {
    Inputs { close_requested: false, escape: false, space: false, up: false, down: false }
}

#[test]
fn quiet_round_only_decays() {
    assert_eq!(respond(quiet()), Some(vec![Action::Decay]));
}

#[test]
fn escape_ends_the_session() {
    let inputs = Inputs { escape: true, ..quiet() };
    assert_eq!(respond(inputs), None);
}

#[test]
fn close_request_ends_the_session() {
    let inputs = Inputs { close_requested: true, ..quiet() };
    assert_eq!(respond(inputs), None);
}

#[test]
fn ending_wins_over_every_key() {
    let inputs = Inputs { close_requested: false, escape: true, space: true, up: true, down: true };
    assert_eq!(respond(inputs), None);
}

#[test]
fn space_asks_for_a_redraw() {
    let inputs = Inputs { space: true, ..quiet() };
    assert_eq!(respond(inputs), Some(vec![Action::Redraw, Action::Decay]));
}

#[test]
fn up_zooms_in() {
    let inputs = Inputs { up: true, ..quiet() };
    assert_eq!(respond(inputs), Some(vec![Action::ZoomIn, Action::Decay]));
}

#[test]
fn down_zooms_out() {
    let inputs = Inputs { down: true, ..quiet() };
    assert_eq!(respond(inputs), Some(vec![Action::ZoomOut, Action::Decay]));
}

#[test]
fn all_keys_act_in_order() {
    let inputs = Inputs { space: true, up: true, down: true, ..quiet() };
    assert_eq!(
        respond(inputs),
        Some(vec![Action::Redraw, Action::ZoomIn, Action::ZoomOut, Action::Decay])
    );
}
