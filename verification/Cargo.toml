[package]
name = "switchyard"
version = "0.1.0"
edition = "2021"
publish = false

[dependencies]
priority-queue = "=1.4.0"
num_cpus = "=1.17.0"
slotmap = "=1.1.1"
parking_lot = "=0.12.5"
futures-intrusive = "=0.5.0"
futures-task = "=0.3.34"
affinity = "0.1"
