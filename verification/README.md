# metis

eBPF TCP observability agent. Kernel probes capture outbound TCP traffic,
TCP state events and DNS responses; the agent turns them into metrics
(InfluxDB line protocol or DogStatsD) and sends them to Telegraf over UDP.

## Layout

- `src/` — the library, verified with Verus:
  - `common`, `probes`: the kernel's ring-buffer records and the events
    decoded from them;
  - `assembler`: reassembly of chunked `tcp_sendmsg` payloads;
  - `router`, `orchestrator`: which modules get which events, and the merged
    port filters of the probes;
  - `modules`, `dns`, `mysql`, `mysql_module`: the TCP, HTTP, DNS and MySQL
    modules (DNS response parsing, MySQL handshake parsing, query
    normalization and query latency);
  - `dns_cache`, `lru_model`: the reverse DNS cache and the model of the LRU
    map behind it;
  - `sink`, `net`, `text`: metric lines and address formatting;
  - `btf`: kernel struct layouts read from the kernel's BTF;
  - `config`: configuration defaults.
- `app/` — the agent binary: loading and attaching the eBPF programs, reading
  their ring buffers, the UDP socket, configuration deserialization and the
  floating-point parts (sampling threshold, latency in milliseconds).
- `tests/` — tests of the library.

Run the agent with the path of the compiled eBPF object as its argument:

```shell
sudo ./metis path/to/metis-ebpf
```
