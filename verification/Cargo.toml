[package]
name = "starry_exec"
version = "0.1.0"
edition = "2021"
publish = false

[dependencies]
ax-errno = "=0.6.3"
ax-kspin = "=0.3.17"
ax-memory-addr = "=0.7.1"
axpoll = "0.3"
kernel-elf-parser = "=0.3.4"
linux-raw-sys = { version = "=0.12.1", features = ["net"] }
starry-process = "=0.4.16"
static-keys = "=0.8.2"
syscalls = { version = "=0.8.1", features = ["x86_64", "aarch64", "riscv64", "loongarch64"] }
uluru = "=3.1.0"
xmas-elf = "=0.9.1"
zerocopy = "=0.8.63"
