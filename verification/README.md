# monad_arb

The verified core of a DEX arbitrage bot for Monad mainnet, written in Verus.

- `src/` is the library. Every function in it is verified against its
  contract: gas caching and gas pricing, profit and fee arithmetic on 256-bit
  amounts, pool liquidity and price impact, swap quotes and how they chain
  along a path, cycle search over a token graph, spread history, spread
  filtering and the bot's loop decisions, the spread dashboard, cycle
  simulation results and reports, Monad block lifecycles, Multicall3 answer
  pairing, LFJ answer decoding, pool discovery (factory lookups, LFJ pairs,
  Uniswap V4 `Initialize` events, pool ids and probes), node settings and
  health, the fast-arbitrage decisions, and the calldata of every call the
  bot makes (router swaps, pool reads, Multicall3 batches, ERC-20 and WMON
  calls, the arbitrage contract).
  Calls into `alloy` and `petgraph` (which holds the token graph) go through
  small trusted wrappers whose contracts say what the called function does.
- `app/` is the program around it: HTTP JSON-RPC, signing and sending
  transactions, the 0x API, and the floating-point amounts and prices. Its
  trading commands (swaps, wrapping, the fast and atomic arbitrages and the
  auto and production loops) ask the library for every decision and every
  calldata.
- `tests/` runs the library on concrete values.
