# kubi

The verified core of the Kubi voxel game client and of its immediate-mode UI library.

- `src/` is the library, written in Verus: every function carries a contract that Verus
  proves. It holds the UI's draw plan (`draw`, `ui`), the glyph atlas and fonts (`text`,
  with fontdue, rect_packer and hashbrown), texture-space allocation (`texman`), the block
  texture array and PNG decoding (`assets`, with image), raw keyboard, mouse and touch
  state (`input`, `touch`, with tinyset, hashbrown and nohash-hasher), window events
  (`events`), the connection and chunk-packet handling (`networking`, with lz4_flex),
  game states and the main loop's decisions (`state`), cursor lock, controllers and block
  actions (`controls`), and the chat history (`chat`).
- `tests/` runs the library on concrete values.
- `app/` is the program around it: command line, files, the UDP connection (uflow), the
  event loop that performs what the library's loop step decides (`client`), and element
  layout, which is floating-point arithmetic.
