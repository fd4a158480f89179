use vstd::prelude::*;

verus! {

/// One hour in microseconds.
pub const HOUR: i128 = 3_600_000_000;

/// A forgetting curve, with its parameter in whole units. Retention is computed from the
/// hours elapsed since the last update and an initial strength, then clamped to [0, 1].
#[derive(Debug, Clone, Copy, PartialEq, Eq, Structural)]
pub enum DecayModel {
    /// R(t) = s * exp(-t / tau), tau in hours.
    Ebbinghaus { decay_constant_hours: u32 },
    /// R(t) = s * (1 + t)^(-b), b in thousandths.
    PowerLaw { exponent_thousandths: u32 },
    /// R(t) = s * 0.5^(t / h), h in hours.
    ExponentialHalfLife { half_life_hours: u32 },
}

/// The curve of each psychology layer: 1 Narrative Core, 2 Emotional Memory, 3 Relational
/// Memory, 4 Prospective Self, 5 Integration, 6 Transformation, 7 Purpose Engine; any other
/// number decays as Emotional Memory does.
pub open spec fn model_for_layer(layer_number: i32) -> DecayModel {
    if layer_number == 1 {
        DecayModel::ExponentialHalfLife { half_life_hours: 720 }
    } else if layer_number == 2 {
        DecayModel::Ebbinghaus { decay_constant_hours: 168 }
    } else if layer_number == 3 {
        DecayModel::PowerLaw { exponent_thousandths: 500 }
    } else if layer_number == 4 {
        DecayModel::ExponentialHalfLife { half_life_hours: 360 }
    } else if layer_number == 5 {
        DecayModel::Ebbinghaus { decay_constant_hours: 240 }
    } else if layer_number == 6 {
        DecayModel::ExponentialHalfLife { half_life_hours: 480 }
    } else if layer_number == 7 {
        DecayModel::Ebbinghaus { decay_constant_hours: 1440 }
    } else {
        DecayModel::Ebbinghaus { decay_constant_hours: 168 }
    }
}

/// Selects the forgetting curve of a psychology layer.
pub fn get_model_for_layer(layer_number: i32) -> (r: DecayModel)
    ensures
        r == model_for_layer(layer_number),
{
    match layer_number {
        1 => DecayModel::ExponentialHalfLife { half_life_hours: 720 },
        2 => DecayModel::Ebbinghaus { decay_constant_hours: 168 },
        3 => DecayModel::PowerLaw { exponent_thousandths: 500 },
        4 => DecayModel::ExponentialHalfLife { half_life_hours: 360 },
        5 => DecayModel::Ebbinghaus { decay_constant_hours: 240 },
        6 => DecayModel::ExponentialHalfLife { half_life_hours: 480 },
        7 => DecayModel::Ebbinghaus { decay_constant_hours: 1440 },
        _ => DecayModel::Ebbinghaus { decay_constant_hours: 168 },
    }
}

/// The whole hours in a signed span of microseconds, rounded toward zero.
pub open spec fn whole_hours(span: int) -> int {
    if span >= 0 {
        span / (HOUR as int)
    } else {
        -((-span) / (HOUR as int))
    }
}

/// Whole hours from `since` to `now` (both in microseconds since the Unix epoch), rounded
/// toward zero; negative when `since` lies after `now`.
pub fn elapsed_hours(now: i64, since: i64) -> (r: i64)
    ensures
        r as int == whole_hours(now - since),
{
    let span: i128 = now as i128 - since as i128;
    if span >= 0 {
        let h: i128 = span / HOUR;
        h as i64
    } else {
        let h: i128 = (-span) / HOUR;
        -(h as i64)
    }
}

/// A stored psychology layer, as far as decay reads it.
#[derive(Debug, Clone, Copy, PartialEq, Eq, Structural)]
pub struct LayerRow {
    /// A UUID as a 128-bit integer.
    pub id: u128,
    pub layer_number: i32,
    /// Time of the last update, in microseconds since the Unix epoch.
    pub last_updated: i64,
}

/// The work for one layer in a decay pass: the curve to apply and the hours it has aged.
#[derive(Debug, Clone, Copy, PartialEq, Eq, Structural)]
pub struct DecayTask {
    pub layer_id: u128,
    pub model: DecayModel,
    pub elapsed_hours: i64,
}

pub open spec fn task_for(row: LayerRow, now: i64) -> DecayTask {
    DecayTask {
        layer_id: row.id,
        model: model_for_layer(row.layer_number),
        elapsed_hours: whole_hours(now - row.last_updated) as i64,
    }
}

/// One task per layer, in the order the layers are given, aged as of `now`.
pub fn plan_decay(rows: &Vec<LayerRow>, now: i64) -> (r: Vec<DecayTask>)
    ensures
        r@.len() == rows@.len(),
        forall|i: int| 0 <= i < rows@.len() ==> #[trigger] r@[i] == task_for(rows@[i], now),
{
    let mut tasks: Vec<DecayTask> = Vec::new();
    let mut i: usize = 0;
    while i < rows.len()
        invariant
            i <= rows@.len(),
            tasks@.len() == i,
            forall|k: int| 0 <= k < i ==> #[trigger] tasks@[k] == task_for(rows@[k], now),
        decreases rows@.len() - i,
    {
        let row = rows[i];
        let h = elapsed_hours(now, row.last_updated);
        tasks.push(
            DecayTask {
                layer_id: row.id,
                model: get_model_for_layer(row.layer_number),
                elapsed_hours: h,
            },
        );
        i = i + 1;
    }
    tasks
}

} // verus!
