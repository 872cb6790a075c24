[package]
name = "osm_gpx"
version = "0.1.0"
edition = "2021"
publish = false

[dependencies]
clap = "*"
geo = "*"
geo-types = "*"
gpx = "*"
log = "*"
osmpbfreader = "*"
pretty_env_logger = "*"
regex = "*"
