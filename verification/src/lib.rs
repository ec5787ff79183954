//! A small calendar library: a Gregorian date kernel, the Easter computus,
//! nth/last-weekday-of-month resolvers, a parser for flexible anchor-date
//! expressions, and a matcher that finds the first configured time period
//! containing a query date.

pub mod config;
pub mod dates;
pub mod easter;
pub mod parse;
pub mod period;
pub mod text;
pub mod weekdays;
pub mod yaml;

pub use config::default_config_yaml;
pub use config::load_yaml_file;
pub use config::period_from_yaml;
pub use dates::Date;
pub use dates::Weekday;
pub use easter::calculate_easter;
pub use parse::parse_flexible_date;
pub use period::TimePeriod;
pub use period::get_current_period;
pub use period::period_matches;
pub use weekdays::last_weekday_of_month;
pub use weekdays::nth_weekday_of_month;
