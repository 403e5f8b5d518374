[package]
name = "imxrt-usdhc"
version = "0.1.0"
edition = "2021"
publish = false

[dependencies]
embedded-sdmmc = "0.9"
imxrt-ral = { version = "*", features = ["imxrt1062"] }
