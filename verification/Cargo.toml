[package]
name = "rain_llvm"
version = "0.1.0"
edition = "2021"
publish = false

[dependencies]
either = "=1.19.0"
fxhash = "=0.2.1"
im-rc = "=15.1.0"
hayami-im = "=0.1.0"
hayami-im-rc = "=0.1.1"
inkwell = { version = "=0.1.1", features = ["llvm14-0"] }
llvm-sys = { version = "=140.1.3", features = ["prefer-dynamic"] }
