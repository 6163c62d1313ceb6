# bulti

An agent for the command line that carries long tasks through with a model of
small context. When a conversation has filled its share of the context, the
model sums it up and names the task that remains, and a new segment goes on
from there; the segments of a task form a chain.

- `src/` is the library, verified with Verus: the segments and their guards, the
  handoffs, the chain and the turns of a conversation, the requests and the
  streamed replies, the tools, the settings, the history, the sessions, the
  skills and the system prompt, the Markdown output, the commands, and the
  messages in three languages.
- `tests/` runs the library.
- `app/` is the program around it: the command line, the files, the database,
  the model's server, the tool servers and the terminal.

What an operation does is stated in its contract over mathematical models.
What holds of several operations together is stated in the functions whose
names begin with `law_`.
