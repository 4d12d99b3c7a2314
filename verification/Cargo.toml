[package]
name = "judge_harness"
version = "0.1.0"
edition = "2021"
publish = false

[dependencies]
clap = "4"
colored = "2"
process_control = "4"
termion = "2"
