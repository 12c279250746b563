[package]
name = "message_fluent_helper"
version = "0.1.0"
edition = "2021"
publish = false

[dependencies]
fluent = "=0.17.0"
intl-memoizer = "=0.5.3"
sys-locale = "=0.3.2"
unic-langid = "=0.9.6"
