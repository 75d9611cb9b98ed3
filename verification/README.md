# stocks

A dashboard for leveraged funds. `src/` is a verified library: the followed funds,
the requests to the market-data service, the readers of its answers, the rules for
the rows of the quote table, and what the dashboard shows of them. `app/` is the
server around it: HTTP, the websocket, the database, and the arithmetic on doubles.

Where a rule needs the outside world between two decisions, the library hands out
a task (`seeding`, `bars`, `quotes`, `payload`); the server carries it out and hands
back what came of it.

The server reads its two pages, `frontend_index.html` and `frontend_3x.html`, from
the directory named by `FRONTEND_DIR` (`frontend` by default).
