# gpui_navigation

Typed, hierarchical navigation for GPUI desktop applications, verified with
Verus.

## Layout

- `src/` — the verified library.
  - `route.rs` — the `RouteSegment` trait. A path stores a route as the
    name of its type and its text; a route type reads a route back from its
    text.
  - `path.rs` — `NavPath`, an ordered sequence of route segments, with typed
    and segment-level reads, structural parent/root/tail, and the laws of
    reading back what was appended.
  - `router.rs` — `NavigationError` and the two decisions of dispatching a
    path through a chain of routers (`navigate_head`, `navigate_next`).
  - `history.rs` — `NavigationHistory`, the state of the application-wide
    navigator: each `try_*` operation decides what to dispatch, the matching
    `complete_*` records a successful dispatch. Back navigation follows
    history; up navigation follows the structural parent.
  - `scope.rs` — `ScopeId` and `ScopePath`, hierarchical navigation scopes.
  - `deriving.rs` — which types may derive `RouteSegment` (non-generic
    enums only).
  - `config.rs`, `error.rs` — `NavMotion`, `NavigatorConfig`,
    `NavigatorError`.
  - `registry.rs` — `NavigationRegistry<S>`, the stack of every scope;
    releasing a scope releases exactly its subtree.
  - `navigator.rs` — the scoped `Navigator` façade as a value: the scope it
    targets, its transition, and how it resolves its stack in a registry.
- `app/` — the GPUI side: the navigator globals, router dispatch into GPUI
  entities, the operations on GPUI navigation stacks, error types with
  display messages, `nav_path!` and the `RouteSegment` derive expansion.
- `tests/` — tests of the library.
