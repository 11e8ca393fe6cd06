//! Runtime parameters of the drone.
use vstd::prelude::*;

verus! {

/// Runtime parameters: telemetry periods, keep-alive supervision, panic
/// descent rate.
#[derive(Debug, Clone, Copy)]
pub struct DroneConfig {
    pub dead_margin: u16,
    pub panic_motor_reduction: u16,
    /// Every how many ticks the drone sends a keep-alive.
    pub ka_tick_period: u32,
    /// After how many ticks without a keep-alive the link counts as lost.
    pub max_ticks_no_ka: u32,
    pub battery_printing_time: u32,
    pub check_battery: bool,
    pub log_report_send_period: u32,
    pub debug_info_period: u32,
    pub debug_motor_command_period: u32,
}

impl DroneConfig {
    /// Every period is positive.
    pub open spec fn wf(&self) -> bool {
        &&& self.ka_tick_period > 0
        &&& self.battery_printing_time > 0
        &&& self.log_report_send_period > 0
        &&& self.debug_info_period > 0
        &&& self.debug_motor_command_period > 0
    }

    pub fn default() -> (r: Self)
        ensures
            r.wf(),
            r.dead_margin == 50,
            r.panic_motor_reduction == 2,
            r.ka_tick_period == 40,
            r.max_ticks_no_ka == 120,
            r.battery_printing_time == 100,
            r.check_battery,
            r.log_report_send_period == 2,
            r.debug_info_period == 50,
            r.debug_motor_command_period == 20,
    {
        DroneConfig {
            dead_margin: 50,
            panic_motor_reduction: 2,
            ka_tick_period: 40,
            max_ticks_no_ka: 120,
            battery_printing_time: 100,
            check_battery: true,
            log_report_send_period: 2,
            debug_info_period: 50,
            debug_motor_command_period: 20,
        }
    }
}

} // verus!
