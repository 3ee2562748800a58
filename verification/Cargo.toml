[package]
name = "iptr"
version = "0.1.0"
edition = "2021"
publish = false

[dependencies]
memchr = "*"
hashbrown = "*"
iced-x86 = { version = "*", default-features = false, features = ["std", "decoder", "instr_info"] }
memmap2 = "*"
