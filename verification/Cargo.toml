[package]
name = "preempt"
version = "0.1.0"
edition = "2021"
publish = false

[dependencies]
embedded-hal = "0.2.7"
esp32c3 = "*"
nb = "1"
panic-halt = "0.2.0"
riscv = "0.7"
riscv-rt = "0.8"
void = { version = "1.0.2", default-features = false }
