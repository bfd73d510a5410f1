[package]
name = "agora_core"
version = "0.1.0"
edition = "2021"
publish = false

[dependencies]
chacha20poly1305 = "=0.10.1"
hkdf = "=0.12.4"
sha2 = "=0.10.9"
hex = "=0.4.3"
base64 = "=0.22.1"
rand = "=0.8.8"
x25519-dalek = { version = "=2.0.1", features = ["static_secrets"] }
ed25519-dalek = { version = "=2.2.0", features = ["rand_core"] }
multibase = "=0.9.3"
snow = "=0.9.6"
serde = { version = "=1.0.229", features = ["derive"] }
serde_json = "=1.0.154"
bincode = "=1.3.3"
postcard = { version = "=1.1.3", features = ["alloc"] }
thiserror = "=1.0.69"
nnnoiseless = { version = "=0.5.2", default-features = false }
opus = "=0.4.0"
tokio = { version = "=1.54.1", features = ["rt-multi-thread", "net", "time", "macros", "sync"] }
tracing = "=0.1.44"
async-trait = "=0.1.92"
stun = "=0.17.2"
socket2 = { version = "=0.6.5", features = ["all"] }
libc = "=0.2.191"
if-addrs = "=0.15.0"
dirs = "=7.0.0"
