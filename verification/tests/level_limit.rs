use mgmt::level::{LevelFilter, LogLimit};
use mgmt::local_coremgmt::limit_log;

#[test]
fn limit_is_that_of_the_process() {
    let mut limit = LogLimit::new();
    let levels = vec![
        (LevelFilter::Off, log::LevelFilter::Off),
        (LevelFilter::Error, log::LevelFilter::Error),
        (LevelFilter::Warn, log::LevelFilter::Warn),
        (LevelFilter::Info, log::LevelFilter::Info),
        (LevelFilter::Debug, log::LevelFilter::Debug),
        (LevelFilter::Trace, log::LevelFilter::Trace),
    ];
    for (level, expected) in levels {
        limit_log(&mut limit, level);
        assert_eq!(log::max_level(), expected);
    }
}
