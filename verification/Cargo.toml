[package]
name = "simple_http_server"
version = "0.1.0"
edition = "2021"
publish = false

[dependencies]
chrono = "0.4"
percent-encoding = "2"
clap = "2"
iron = "0.6"
multipart = { version = "0.18", features = ["iron"] }
hyper-native-tls = "0.3"
pretty-bytes = "0.2"
termcolor = "1"
lazy_static = "1"
flate2 = "1"
filetime = "0.2"
time = "0.1"
conduit-mime-types = "0.7"
