use rusty_core::logger::{Level, Logger, NullLogger};

struct Sink(std::sync::Mutex<Vec<String>>);

impl Logger for Sink {
    fn log(&self, level: Level, message: &str) {
        self.0.lock().unwrap().push(format!("{level:?}: {message}"));
    }
}

#[test]
fn logger_receives_messages() {
    let sink = Sink(std::sync::Mutex::new(Vec::new()));
    sink.log(Level::Info, "hello");
    let messages = sink.0.lock().unwrap();
    assert_eq!(messages[0], "Info: hello");
}

#[test]
fn null_logger_accepts_everything() {
    NullLogger.log(Level::Error, "ignored");
}
