# dtv

The network side of a desktop client for live streams, as a verified library.

The client may be given an upstream proxy, SOCKS5 or HTTP, on the command line or in
the environment:

    dtv --proxy-server=http://127.0.0.1:8080
    dtv --proxy-server socks5://127.0.0.1:1080
    DTV_PROXY=socks5://127.0.0.1:1080 dtv

This machine (`127.0.0.1`, `localhost`, `::1`) and the private networks do not enter
the proxy: clients and the web view have them on their lists of exceptions, and every
other connection to them is direct.

- `src/net_proxy.rs`, `src/client.rs`: which proxy is meant, and the settings of the
  HTTP clients that go through it.
- `src/local.rs`: which destinations are local.
- `src/tunnel.rs`, `src/socks5.rs`, `src/http_head.rs`, `src/forward.rs`: the way to a
  destination, the two handshakes, and the plans of the local forwarder.
- `src/hls.rs`, `src/relay.rs`, `src/server.rs`: playlists that lead through the local
  server, its requests and answers, and when it runs.
- `src/commands.rs`: the commands of the desktop shell that decide something.
- `src/hls_laws.rs`, `src/http_laws.rs`, `src/proxy_laws.rs`: what holds of these as a
  whole.
- `src/text.rs`, `src/decimal.rs`: text and numbers.
- `src/boundary.rs`: the calls into other crates, with what is believed of them. One
  more such item is in `src/text.rs`.

`app/` does the rest: sockets, clients and servers. It is not verified.
