[package]
name = "lambda_jit"
version = "0.1.0"
edition = "2021"
publish = false

[dependencies]
inkwell = { version = "=0.1.1", features = ["llvm14-0"] }
# inkwell reaches LLVM through llvm-sys. The line below adds nothing to the
# code: it makes llvm-sys link LLVM as a shared library, since a system's
# LLVM often comes without all of its static libraries.
llvm-sys = { version = "=140.1.3", features = ["prefer-dynamic"] }
