use helix_core::decay::{
    elapsed_hours, get_model_for_layer, plan_decay, DecayModel, LayerRow,
};

const HOUR: i64 = 3_600_000_000;

#[test]
fn layer_models_follow_the_table() {
    assert_eq!(get_model_for_layer(1), DecayModel::ExponentialHalfLife { half_life_hours: 720 });
    assert_eq!(get_model_for_layer(2), DecayModel::Ebbinghaus { decay_constant_hours: 168 });
    assert_eq!(get_model_for_layer(3), DecayModel::PowerLaw { exponent_thousandths: 500 });
    assert_eq!(get_model_for_layer(4), DecayModel::ExponentialHalfLife { half_life_hours: 360 });
    assert_eq!(get_model_for_layer(5), DecayModel::Ebbinghaus { decay_constant_hours: 240 });
    assert_eq!(get_model_for_layer(6), DecayModel::ExponentialHalfLife { half_life_hours: 480 });
    assert_eq!(get_model_for_layer(7), DecayModel::Ebbinghaus { decay_constant_hours: 1440 });
}

#[test]
fn unknown_layers_use_the_default_curve() {
    assert_eq!(get_model_for_layer(999), DecayModel::Ebbinghaus { decay_constant_hours: 168 });
    assert_eq!(get_model_for_layer(0), DecayModel::Ebbinghaus { decay_constant_hours: 168 });
    assert_eq!(get_model_for_layer(-3), DecayModel::Ebbinghaus { decay_constant_hours: 168 });
}

#[test]
fn elapsed_hours_rounds_toward_zero() {
    let now = 1_700_000_000_000_000;
    assert_eq!(elapsed_hours(now, now), 0);
    assert_eq!(elapsed_hours(now, now - 720 * HOUR), 720);
    assert_eq!(elapsed_hours(now, now - 90 * 60_000_000), 1);
    assert_eq!(elapsed_hours(now, now + 90 * 60_000_000), -1);
    assert_eq!(elapsed_hours(i64::MAX, i64::MIN), 5_124_095_576);
}

#[test]
fn decay_plan_at_half_life() {
    let now = 1_700_000_000_000_000;
    let rows = vec![
        LayerRow { id: 11, layer_number: 1, last_updated: now - 720 * HOUR },
        LayerRow { id: 12, layer_number: 3, last_updated: now },
    ];
    let tasks = plan_decay(&rows, now);
    assert_eq!(tasks.len(), 2);
    assert_eq!(tasks[0].layer_id, 11);
    assert_eq!(tasks[0].model, DecayModel::ExponentialHalfLife { half_life_hours: 720 });
    assert_eq!(tasks[0].elapsed_hours, 720);
    assert_eq!(tasks[1].layer_id, 12);
    assert_eq!(tasks[1].model, DecayModel::PowerLaw { exponent_thousandths: 500 });
    assert_eq!(tasks[1].elapsed_hours, 0);
}
