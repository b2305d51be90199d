//! Day/night schedules for a mains switch: a year of on/off windows blended
//! from the daylight of two places, and the rules that drive the switch by it.

pub mod calendar;
pub mod clock;
pub mod constants;
pub mod control;
pub mod decimal;
pub mod factor;
pub mod order;
pub mod plug;
pub mod sunrise_api;
pub mod text;
pub mod time;
pub mod timer;
