use peekaboo::logger::{debug, error, info, warn, Logger, MAX_DEBUG_LOGS};

#[test]
fn messages_carry_their_level_tags() {
    let mut logger = Logger::new();
    logger.debug("one");
    logger.info("two");
    logger.warn("three");
    logger.error("four");
    assert_eq!(
        logger.get_debug_logs(),
        vec![
            "DEBUG: one".to_string(),
            "INFO: two".to_string(),
            "WARN: three".to_string(),
            "ERROR: four".to_string(),
        ]
    );
}

#[test]
fn free_functions_write_the_same_ring() {
    let mut logger = Logger::new();
    debug(&mut logger, "a");
    info(&mut logger, "b");
    warn(&mut logger, "c");
    error(&mut logger, "d");
    assert_eq!(logger.get_debug_logs().len(), 4);
    assert_eq!(logger.get_debug_logs()[3], "ERROR: d");
}

#[test]
fn ring_drops_the_oldest_line_when_full() {
    let mut logger = Logger::new();
    for i in 0..MAX_DEBUG_LOGS {
        logger.debug(&format!("line {}", i));
    }
    assert_eq!(logger.get_debug_logs().len(), MAX_DEBUG_LOGS);
    assert_eq!(logger.get_debug_logs()[0], "DEBUG: line 0");

    logger.debug_static("overflow");
    let logs = logger.get_debug_logs();
    assert_eq!(logs.len(), MAX_DEBUG_LOGS);
    assert_eq!(logs[0], "DEBUG: line 1");
    assert_eq!(logs[MAX_DEBUG_LOGS - 1], "DEBUG: overflow");
}
