pub mod teelogger;
